use flotilla::clock::{RefreshClock, Step, SECOND};
use flotilla::dashboard::App;
use flotilla::event::{Event, Response};
use flotilla::fs_path::FsPath;

#[test]
fn only_refreshes_by_events_restart_the_clock() {
    let mut clock = RefreshClock::start(5);
    clock.advance(Step::Action, 7 * SECOND);
    clock.advance(Step::Event(Response::Handled), 8 * SECOND);
    clock.advance(Step::Event(Response::ListDirectory), 9 * SECOND);
    assert_eq!(clock.last, 5);
    clock.advance(Step::Event(Response::Refresh), 10 * SECOND);
    assert_eq!(clock.last, 10 * SECOND);
}

#[test]
fn time_refreshes_ten_seconds_after_the_last_refresh() {
    let mut app = App::new(vec![FsPath::from_text("/a")], String::new());
    let clock = RefreshClock::start(3);
    assert_eq!(clock.tick(10 * SECOND + 2), Event::Tick { elapsed: 9 });
    assert_eq!(app.on_event(clock.tick(10 * SECOND + 2)), Response::Handled);
    assert_eq!(app.on_event(clock.tick(10 * SECOND + 3)), Response::Refresh);
    assert_eq!(clock.tick(0), Event::Tick { elapsed: 0 });
}
