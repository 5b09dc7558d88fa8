use bergamot::{
    layout, render, check_sizes, Alignment, Area, Colour, Colours, Config, Constraint,
    Constraints, Cursors, DrawOp, MonitorConstraint, Placement, Rectangle, TextSize, Widget,
};

fn area(text: &str) -> Area {
    Area { text: text.to_string(), colours: Colours::default(), on_click: vec![] }
}

fn widget(tag: &str, alignment: Alignment, texts: &[&str]) -> Widget {
    Widget {
        tag: tag.to_string(),
        alignment,
        content: texts.iter().map(|t| area(t)).collect(),
        constraints: Constraints::new(),
    }
}

fn on_monitors(mut w: Widget, monitors: &[usize]) -> Widget {
    w.constraints =
        Constraints(monitors.iter().map(|m| Constraint::Monitor(MonitorConstraint(*m))).collect());
    w
}

fn size(width: u32) -> TextSize {
    TextSize { width, height: 8 }
}

fn spans(ps: &[Placement]) -> Vec<(i64, i64)> {
    ps.iter().map(|p| (p.left, p.right)).collect()
}

fn config() -> Config {
    Config {
        height: 16,
        font_str: "Sans 9".to_string(),
        default_bg: Colour::from_rgb(0x33, 0x32, 0x32),
        default_fg: Colour::from_rgb(0xa7, 0xa5, 0xa5),
    }
}

#[test]
fn left_widgets_are_contiguous() {
    let ws = vec![
        widget("a", Alignment::Left, &["a"]),
        widget("b", Alignment::Left, &["bb"]),
        widget("c", Alignment::Left, &["ccc"]),
    ];
    let sizes = vec![vec![size(5)], vec![size(13)], vec![size(0)]];
    let r = layout(0, 300, 16, &ws, &sizes);
    assert_eq!(spans(&r), vec![(0, 15), (15, 38), (38, 48)]);
    for pair in r.windows(2) {
        assert_eq!(pair[0].right, pair[1].left);
    }
}

#[test]
fn right_widgets_are_consumed_from_the_right_edge() {
    let ws = vec![
        widget("a", Alignment::Right, &["a"]),
        widget("b", Alignment::Right, &["b"]),
        widget("c", Alignment::Right, &["c"]),
    ];
    let sizes = vec![vec![size(10)], vec![size(20)], vec![size(0)]];
    let r = layout(0, 200, 16, &ws, &sizes);
    assert_eq!(spans(&r), vec![(180, 200), (150, 180), (140, 150)]);
    for pair in r.windows(2) {
        assert_eq!(pair[0].left, pair[1].right);
    }
}

#[test]
fn areas_of_a_right_widget_keep_reading_order() {
    let ws = vec![widget("a", Alignment::Right, &["x", "y"])];
    let sizes = vec![vec![size(10), size(30)]];
    let r = layout(0, 200, 16, &ws, &sizes);
    assert_eq!(spans(&r), vec![(140, 160), (160, 200)]);
    assert_eq!((r[0].area, r[1].area), (0, 1));
}

#[test]
fn center_widgets_come_last() {
    let ws = vec![
        widget("c", Alignment::Center, &["c"]),
        widget("l", Alignment::Left, &["l"]),
        widget("r", Alignment::Right, &["r"]),
    ];
    let sizes = vec![vec![size(190)], vec![size(90)], vec![size(90)]];
    let r = layout(0, 200, 16, &ws, &sizes);
    let order: Vec<usize> = r.iter().map(|p| p.widget).collect();
    assert_eq!(order, vec![1, 2, 0]);
    assert_eq!(spans(&r), vec![(0, 100), (100, 200), (0, 200)]);
}

#[test]
fn monitor_constraint_limits_outputs() {
    let ws = vec![
        on_monitors(widget("only1", Alignment::Left, &["x"]), &[1]),
        widget("all", Alignment::Left, &["y"]),
    ];
    let sizes = vec![vec![size(10)], vec![size(10)]];
    for k in 0..3usize {
        let r = layout(k, 200, 16, &ws, &sizes);
        let shown: Vec<usize> = r.iter().map(|p| p.widget).collect();
        if k == 1 {
            assert_eq!(shown, vec![0, 1]);
            assert_eq!(spans(&r), vec![(0, 20), (20, 40)]);
        } else {
            assert_eq!(shown, vec![1]);
            assert_eq!(spans(&r), vec![(0, 20)]);
        }
    }
}

#[test]
fn excluded_widgets_do_not_take_center_room() {
    let ws = vec![
        on_monitors(widget("elsewhere", Alignment::Center, &["x"]), &[2]),
        widget("here", Alignment::Center, &["y"]),
    ];
    let sizes = vec![vec![size(90)], vec![size(30)]];
    let r = layout(0, 200, 16, &ws, &sizes);
    assert_eq!(spans(&r), vec![(80, 120)]);
}

#[test]
fn end_to_end_left_and_right() {
    let ws = vec![widget("", Alignment::Left, &["A"]), widget("", Alignment::Right, &["B"])];
    // measured widths of 20 pixels: 10 of text and the padding of 10
    let sizes = vec![vec![size(10)], vec![size(10)]];
    let frame = render(0, 7, 200, &config(), &ws, &sizes);
    let got: Vec<(i64, i64)> = frame.paints.iter().map(|p| (p.left, p.right)).collect();
    assert_eq!(got, vec![(0, 20), (180, 200)]);
    assert!(frame.paints.iter().all(|p| p.win == 7));
    assert_eq!(frame.paints[0].area.text, "A");
    assert_eq!(frame.paints[1].area.text, "B");
}

#[test]
fn end_to_end_center() {
    let ws = vec![widget("", Alignment::Center, &["C"])];
    let sizes = vec![vec![size(30)]];
    let r = layout(0, 200, 16, &ws, &sizes);
    assert_eq!(spans(&r), vec![(80, 120)]);
}

#[test]
fn center_start_rounds_each_half_down() {
    let ws = vec![widget("", Alignment::Center, &["C"])];
    let sizes = vec![vec![size(1)]];
    let r = layout(0, 201, 16, &ws, &sizes);
    // 201 / 2 - 11 / 2 = 100 - 5
    assert_eq!(spans(&r), vec![(95, 106)]);
}

#[test]
fn empty_layout_only_fills_background() {
    let ws: Vec<Widget> = vec![];
    let sizes: Vec<Vec<TextSize>> = vec![];
    assert!(layout(0, 200, 16, &ws, &sizes).is_empty());
    let frame = render(0, 1, 200, &config(), &ws, &sizes);
    assert!(frame.paints.is_empty());
    assert_eq!(
        frame.ops,
        vec![DrawOp::Fill {
            rect: Rectangle { x: 0, y: 0, width: 200, height: 16 },
            colour: Colour::from_rgb(0x33, 0x32, 0x32),
        }]
    );
}

#[test]
fn wide_widgets_overflow_without_error() {
    let ws = vec![widget("", Alignment::Left, &["l"]), widget("", Alignment::Right, &["r"])];
    let sizes = vec![vec![size(140)], vec![size(140)]];
    let r = layout(0, 200, 16, &ws, &sizes);
    assert_eq!(spans(&r), vec![(0, 150), (50, 200)]);
}

#[test]
fn render_steps_use_area_colours_and_defaults() {
    let red = Colour::from_rgb(255, 0, 0);
    let mut a = area("A");
    a.colours.bg = Some(red);
    let ws = vec![Widget {
        tag: "t".to_string(),
        alignment: Alignment::Left,
        content: vec![a, area("B")],
        constraints: Constraints::new(),
    }];
    let sizes = vec![vec![TextSize { width: 10, height: 9 }, TextSize { width: 20, height: 10 }]];
    let cfg = config();
    let frame = render(0, 3, 100, &cfg, &ws, &sizes);
    assert_eq!(frame.ops.len(), 5);
    assert_eq!(
        frame.ops[1],
        DrawOp::Fill { rect: Rectangle { x: 0, y: 0, width: 20, height: 16 }, colour: red }
    );
    assert_eq!(
        frame.ops[2],
        DrawOp::Text { x: 5, y: 4, colour: cfg.default_fg, widget: 0, area: 0 }
    );
    assert_eq!(
        frame.ops[3],
        DrawOp::Fill {
            rect: Rectangle { x: 20, y: 0, width: 30, height: 16 },
            colour: cfg.default_bg,
        }
    );
    assert_eq!(
        frame.ops[4],
        DrawOp::Text { x: 25, y: 3, colour: cfg.default_fg, widget: 0, area: 1 }
    );
}

#[test]
fn paints_are_snapshots() {
    let mut ws = vec![widget("t", Alignment::Left, &["before"])];
    let sizes = vec![vec![size(10)]];
    let frame = render(0, 3, 100, &config(), &ws, &sizes);
    ws[0].content[0].text = "after".to_string();
    assert_eq!(frame.paints[0].area.text, "before");
}

#[test]
fn sizes_must_match_areas() {
    let ws = vec![widget("", Alignment::Left, &["a", "b"])];
    assert!(check_sizes(&ws, &vec![vec![size(1), size(2)]]));
    assert!(!check_sizes(&ws, &vec![vec![size(1)]]));
    assert!(!check_sizes(&ws, &vec![]));
    assert!(!check_sizes(&ws, &vec![vec![size(u32::MAX), size(0)]]));
}

#[test]
fn cursors_bump_and_bound() {
    let mut c = Cursors { top: 0, bottom: 16, left: 0, center: 80, right: 200 };
    assert_eq!(c.bump_left(20), (0, 20));
    assert_eq!(c.bump_right(30), (170, 200));
    assert_eq!(c.bump_center(40), (80, 120));
    assert_eq!(c.as_rectangle(), Rectangle { x: 20, y: 0, width: 150, height: 16 });
    let w = widget("", Alignment::Right, &["x"]);
    let rect = c.make_bounding_rectangle(&w, 10);
    assert_eq!(rect, Rectangle { x: 160, y: 0, width: 10, height: 16 });
    assert_eq!(c.right, 160);
    assert_eq!(Rectangle::new(1, 2, 3, 4), Rectangle { x: 1, y: 2, width: 3, height: 4 });
}

#[test]
fn alignment_predicates() {
    assert!(Alignment::Center.is_center());
    assert!(!Alignment::Left.is_center());
    assert!(Alignment::Right.is_right());
    assert!(!Alignment::Center.is_right());
}
