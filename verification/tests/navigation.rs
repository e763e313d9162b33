use resume_tui::events::{run_events, step, Event, Key};
use resume_tui::MyTabs;

fn seven_tabs() -> MyTabs<'static> {
    MyTabs {
        titles: vec![
            "Home",
            "About",
            "Skills",
            "Experience",
            "Education",
            "Projects",
            "Objective",
        ],
        selection: 0,
    }
}

#[test]
fn next_cycles_back_to_start() {
    for start in 0..7 {
        let mut tabs = seven_tabs();
        tabs.selection = start;
        for _ in 0..7 {
            tabs.next();
        }
        assert_eq!(tabs.selection, start);
    }
}

#[test]
fn previous_cycles_back_to_start() {
    for start in 0..7 {
        let mut tabs = seven_tabs();
        tabs.selection = start;
        for _ in 0..7 {
            tabs.previous();
        }
        assert_eq!(tabs.selection, start);
    }
}

#[test]
fn single_tab_next_and_previous_are_noops() {
    let mut tabs = MyTabs { titles: vec!["Home"], selection: 0 };
    tabs.next();
    assert_eq!(tabs.selection, 0);
    tabs.previous();
    assert_eq!(tabs.selection, 0);
}

#[test]
fn right_arrow_walks_all_sections_then_wraps() {
    let mut tabs = seven_tabs();
    for expected in 1..=6 {
        tabs.next();
        assert_eq!(tabs.selection, expected);
    }
    assert_eq!(tabs.titles[tabs.selection], "Objective");
    tabs.next();
    assert_eq!(tabs.selection, 0);
    assert_eq!(tabs.titles[tabs.selection], "Home");
}

#[test]
fn left_from_first_wraps_to_last() {
    let mut tabs = seven_tabs();
    tabs.previous();
    assert_eq!(tabs.selection, 6);
}

#[test]
fn event_sequence_is_consumed_in_order() {
    let mut tabs = seven_tabs();
    tabs.selection = 2;

    // Observed one at a time, in push order.
    assert!(!step(&mut tabs, Event::Tick));
    assert_eq!(tabs.selection, 2);
    assert!(!step(&mut tabs, Event::Input(Key::Right)));
    assert_eq!(tabs.selection, 3);
    assert!(!step(&mut tabs, Event::Tick));
    assert_eq!(tabs.selection, 3);
    assert!(!step(&mut tabs, Event::Input(Key::Left)));
    assert_eq!(tabs.selection, 2);

    // The same sequence through the loop runner ends where it began.
    let events = vec![
        Event::Tick,
        Event::Input(Key::Right),
        Event::Tick,
        Event::Input(Key::Left),
    ];
    let quit = run_events(&mut tabs, &events);
    assert!(!quit);
    assert_eq!(tabs.selection, 2);
}

#[test]
fn quit_key_stops_the_loop_and_changes_nothing() {
    let mut tabs = seven_tabs();
    tabs.selection = 4;
    let events = vec![
        Event::Input(Key::Char('q')),
        Event::Input(Key::Right),
        Event::Input(Key::Right),
    ];
    let quit = run_events(&mut tabs, &events);
    assert!(quit);
    assert_eq!(tabs.selection, 4);
}

#[test]
fn no_events_change_nothing() {
    let mut tabs = seven_tabs();
    tabs.selection = 3;
    let quit = run_events(&mut tabs, &Vec::new());
    assert!(!quit);
    assert_eq!(tabs.selection, 3);
}

#[test]
fn other_keys_are_ignored() {
    let mut tabs = seven_tabs();
    assert!(!step(&mut tabs, Event::Input(Key::Char('x'))));
    assert_eq!(tabs.selection, 0);
    assert!(!step(&mut tabs, Event::Input(Key::Other)));
    assert_eq!(tabs.selection, 0);
}
