use ray_tracer::path::{after, start, Event, Next, PathEnd};

fn run(depth: i32, events: &[Event]) -> (PathEnd, usize) {
    let mut next = start(depth);
    let mut queries = 0;
    loop {
        match next {
            Next::End { end } => return (end, queries),
            Next::Trace { depth } => {
                let e = events[queries];
                queries += 1;
                next = after(depth, e);
            }
        }
    }
}

#[test]
fn zero_depth_is_black_without_querying() {
    assert_eq!(start(0), Next::End { end: PathEnd::Exhausted });
    assert_eq!(start(-4), Next::End { end: PathEnd::Exhausted });
    assert!(PathEnd::Exhausted.is_black());
    assert_eq!(run(0, &[]), (PathEnd::Exhausted, 0));
}

#[test]
fn path_steps() {
    assert_eq!(start(3), Next::Trace { depth: 3 });
    assert_eq!(after(3, Event::Scatter), Next::Trace { depth: 2 });
    assert_eq!(after(1, Event::Scatter), Next::End { end: PathEnd::Exhausted });
    assert_eq!(after(2, Event::Miss), Next::End { end: PathEnd::Escaped });
    assert_eq!(after(2, Event::Absorb), Next::End { end: PathEnd::Absorbed });
    assert!(!PathEnd::Escaped.is_black());
    assert!(PathEnd::Absorbed.is_black());
}

#[test]
fn budget_bounds_the_number_of_bounces() {
    let all_scatter = [Event::Scatter; 5];
    assert_eq!(run(5, &all_scatter), (PathEnd::Exhausted, 5));
    assert_eq!(run(1, &[Event::Scatter]), (PathEnd::Exhausted, 1));
    assert_eq!(run(3, &[Event::Scatter, Event::Miss]), (PathEnd::Escaped, 2));
    assert_eq!(run(3, &[Event::Scatter, Event::Scatter, Event::Absorb]), (PathEnd::Absorbed, 3));
}
