use bergamot::{
    handle_event, hit_test, order_outputs, output_is_active, outputs_for, strut, strut_partial,
    Area, BadHexFormat, ClickHandler, Colour, Colours, Constraint, Constraints, Event,
    MonitorConstraint, MouseButton, Paint, Reaction, Rectangle,
};

fn handler(button: MouseButton, output: &str) -> ClickHandler {
    ClickHandler { button, output: output.to_string() }
}

fn paint(left: i64, right: i64, win: u32, outputs: &[(MouseButton, &str)]) -> Paint {
    Paint {
        left,
        right,
        win,
        area: Area {
            text: String::new(),
            colours: Colours::default(),
            on_click: outputs.iter().map(|(b, o)| handler(*b, o)).collect(),
        },
    }
}

fn emitted(r: Reaction) -> Vec<String> {
    match r {
        Reaction::Emit(v) => v,
        other => panic!("expected output, got {:?}", other),
    }
}

#[test]
fn narrower_paint_wins() {
    let ps = vec![paint(0, 100, 1, &[]), paint(40, 60, 1, &[])];
    assert_eq!(hit_test(&ps, 1, 50), Some(1));
    assert_eq!(hit_test(&ps, 1, 30), Some(0));
    assert_eq!(hit_test(&ps, 1, 100), Some(0));
    assert_eq!(hit_test(&ps, 1, 101), None);
    assert_eq!(hit_test(&ps, 2, 50), None);
}

#[test]
fn equal_widths_pick_the_first() {
    let ps = vec![paint(0, 10, 1, &[]), paint(5, 15, 1, &[]), paint(5, 15, 1, &[])];
    assert_eq!(hit_test(&ps, 1, 7), Some(0));
    assert_eq!(hit_test(&ps, 1, 12), Some(1));
}

#[test]
fn every_matching_handler_fires() {
    let ps = vec![paint(
        0,
        100,
        1,
        &[
            (MouseButton::Left, "a"),
            (MouseButton::Right, "b"),
            (MouseButton::Left, "c"),
        ],
    )];
    let out = emitted(handle_event(&ps, Event::ButtonPress { window: 1, x: 5, detail: 1 }));
    assert_eq!(out, vec!["a".to_string(), "c".to_string()]);
    let out = emitted(handle_event(&ps, Event::ButtonPress { window: 1, x: 5, detail: 3 }));
    assert_eq!(out, vec!["b".to_string()]);
    assert_eq!(outputs_for(&ps[0].area, MouseButton::Middle), Vec::<String>::new());
}

#[test]
fn click_on_narrow_center_paint_uses_its_handlers() {
    let ps = vec![
        paint(0, 100, 1, &[(MouseButton::Left, "under")]),
        paint(40, 60, 1, &[(MouseButton::Left, "over")]),
    ];
    let out = emitted(handle_event(&ps, Event::ButtonPress { window: 1, x: 50, detail: 1 }));
    assert_eq!(out, vec!["over".to_string()]);
}

#[test]
fn clicks_that_match_nothing_emit_nothing() {
    let ps = vec![paint(0, 100, 1, &[(MouseButton::Left, "a")])];
    assert!(emitted(handle_event(&ps, Event::ButtonPress { window: 1, x: 500, detail: 1 }))
        .is_empty());
    assert!(emitted(handle_event(&ps, Event::ButtonPress { window: 1, x: 5, detail: 8 }))
        .is_empty());
    assert!(emitted(handle_event(&[].to_vec(), Event::ButtonPress { window: 1, x: 5, detail: 1 }))
        .is_empty());
}

#[test]
fn expose_redraws_and_others_are_ignored() {
    let ps: Vec<Paint> = vec![];
    assert!(matches!(handle_event(&ps, Event::Expose), Reaction::Redraw));
    assert!(matches!(handle_event(&ps, Event::Other), Reaction::Ignore));
}

#[test]
fn button_codes() {
    let expected = [
        (0u8, None),
        (1, Some(MouseButton::Left)),
        (2, Some(MouseButton::Middle)),
        (3, Some(MouseButton::Right)),
        (4, Some(MouseButton::ScrollUp)),
        (5, Some(MouseButton::ScrollDown)),
        (6, Some(MouseButton::ScrollLeft)),
        (7, Some(MouseButton::ScrollRight)),
        (8, None),
    ];
    for (code, b) in expected {
        assert_eq!(MouseButton::from_detail(code), b);
    }
}

fn bad(value: &str) -> String {
    match Colour::from_str(value) {
        Err(BadHexFormat(s)) => s,
        Ok(c) => panic!("parsed {:?}", c),
    }
}

#[test]
fn hex_colours() {
    assert_eq!(Colour::from_str("#333232").unwrap(), Colour { red: 0x33, green: 0x32, blue: 0x32 });
    assert_eq!(Colour::from_str("#a7a5a5").unwrap(), Colour { red: 0xa7, green: 0xa5, blue: 0xa5 });
    assert_eq!(Colour::from_str("#FF0080").unwrap(), Colour { red: 255, green: 0, blue: 128 });
    assert_eq!(bad("333232"), "333232");
    assert_eq!(bad("#33323"), "#33323");
    assert_eq!(bad("#3332321"), "#3332321");
    assert_eq!(bad(""), "");
    assert_eq!(bad("#zz3232"), "zz");
    assert_eq!(bad("#33g232"), "g2");
    assert_eq!(bad("#3332x2"), "x2");
    assert_eq!(bad("#3332é2"), "é2");
}

#[test]
fn monitor_constraints() {
    let c = Constraints(vec![
        Constraint::Monitor(MonitorConstraint(2)),
        Constraint::Monitor(MonitorConstraint(0)),
    ]);
    let numbers: Vec<usize> = c.monitor().iter().map(|m| m.number()).collect();
    assert_eq!(numbers, vec![2, 0]);
    assert!(c.allows(0));
    assert!(!c.allows(1));
    assert!(c.allows(2));
    assert!(Constraints::new().allows(5));
}

fn rect(x: i64, y: i64) -> Rectangle {
    Rectangle { x, y, width: 100, height: 50 }
}

#[test]
fn outputs_ordered_by_row_then_column() {
    let r = order_outputs(vec![rect(1920, 0), rect(0, 1080), rect(0, 0), rect(1920, 0)]);
    assert_eq!(r, vec![rect(0, 0), rect(1920, 0), rect(1920, 0), rect(0, 1080)]);
    assert!(order_outputs(vec![]).is_empty());
}

#[test]
fn active_outputs() {
    assert!(output_is_active(3, false));
    assert!(!output_is_active(0, false));
    assert!(!output_is_active(3, true));
}

#[test]
fn struts() {
    assert_eq!(strut(18), vec![0, 0, 18, 0]);
    let r = Rectangle { x: 1920, y: 0, width: 1280, height: 1024 };
    assert_eq!(strut_partial(&r, 14), vec![0, 0, 14, 0, 0, 0, 0, 0, 1920, 3200, 0, 0]);
    let r = Rectangle { x: -10, y: 0, width: 5, height: 1 };
    assert_eq!(strut_partial(&r, 14), vec![0, 0, 14, 0, 0, 0, 0, 0, 0, 0, 0, 0]);
}

#[test]
fn area_snapshot_copies_everything() {
    let a = Area {
        text: "t".to_string(),
        colours: Colours { fg: Some(Colour::from_rgb(1, 2, 3)), bg: None },
        on_click: vec![handler(MouseButton::ScrollUp, "up")],
    };
    let b = a.snapshot();
    assert_eq!(b.text, "t");
    assert_eq!(b.colours, a.colours);
    assert_eq!(b.on_click[0].output, "up");
    assert_eq!(b.on_click[0].button, MouseButton::ScrollUp);
}
