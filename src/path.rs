use vstd::prelude::*;

verus! {

/// What happened when a camera path queried the scene.
#[derive(Clone, Copy, Debug, PartialEq, Eq, Structural)]
pub enum Event {
    /// The ray hit nothing and leaves into the background.
    Miss,
    /// The ray hit a surface whose material absorbed it.
    Absorb,
    /// The ray hit a surface whose material sent a new ray on.
    Scatter,
}

/// How a camera path ended.
#[derive(Clone, Copy, Debug, PartialEq, Eq, Structural)]
pub enum PathEnd {
    /// The bounce budget ran out before the path left the scene.
    Exhausted,
    /// A material absorbed the path.
    Absorbed,
    /// The path left the scene into the background.
    Escaped,
}

/// What a camera path does next.
#[derive(Clone, Copy, Debug, PartialEq, Eq, Structural)]
pub enum Next {
    /// Query the scene with the current ray; `depth` bounces are left, counting this one.
    Trace { depth: i32 },
    /// The path is over.
    End { end: PathEnd },
}

/// The first step of a path whose bounce budget is `depth`.
pub open spec fn spec_start(depth: int) -> Next {
    if depth <= 0 {
        Next::End { end: PathEnd::Exhausted }
    } else {
        Next::Trace { depth: depth as i32 }
    }
}

/// The step that follows `event`, met while `depth` bounces were left.
pub open spec fn spec_after(depth: int, event: Event) -> Next {
    match event {
        Event::Miss => Next::End { end: PathEnd::Escaped },
        Event::Absorb => Next::End { end: PathEnd::Absorbed },
        Event::Scatter => spec_start(depth - 1),
    }
}

/// Where a path stands after it has met `events` in order; events that come
/// after its end change nothing.
pub open spec fn spec_run(next: Next, events: Seq<Event>) -> Next
    decreases events.len(),
{
    if events.len() == 0 {
        next
    } else {
        match next {
            Next::Trace { depth } => spec_run(spec_after(depth as int, events[0]), events.drop_first()),
            Next::End { end } => next,
        }
    }
}

impl PathEnd {
    /// Whether the path brings back black: a path that the budget or a
    /// material stopped carries no light.
    pub open spec fn spec_is_black(self) -> bool {
        !(self is Escaped)
    }

    /// Whether the path brings back black, whatever the scene's colours.
    pub fn is_black(self) -> (r: bool)
        ensures
            r == self.spec_is_black(),
    {
        match self {
            PathEnd::Escaped => false,
            _ => true,
        }
    }
}

/// The first step of a camera path whose bounce budget is `depth`: a path
/// with no budget left ends at once, black, without looking at the scene.
pub fn start(depth: i32) -> (r: Next)
    ensures
        r == spec_start(depth as int),
        depth <= 0 ==> r == (Next::End { end: PathEnd::Exhausted }),
{
    if depth <= 0 {
        Next::End { end: PathEnd::Exhausted }
    } else {
        Next::Trace { depth }
    }
}

/// The step that follows a scene query made while `depth` bounces were left:
/// a miss ends in the background, an absorption ends black, and a scattered
/// ray goes on with one bounce fewer.
pub fn after(depth: i32, event: Event) -> (r: Next)
    requires
        depth > 0,
    ensures
        r == spec_after(depth as int, event),
{
    match event {
        Event::Miss => Next::End { end: PathEnd::Escaped },
        Event::Absorb => Next::End { end: PathEnd::Absorbed },
        Event::Scatter => start(depth - 1),
    }
}


/// A path started with no bounce budget ends black and never queries the
/// scene: whatever the scene would have answered, it ends exhausted.
pub proof fn lemma_no_budget_is_black(depth: int, events: Seq<Event>)
    requires
        depth <= 0,
    ensures
        spec_run(spec_start(depth), events) == (Next::End { end: PathEnd::Exhausted }),
        (PathEnd::Exhausted).spec_is_black(),
{
}

/// A path started with a budget of `depth` bounces has ended once it has
/// met `depth` events, and it ends exhausted exactly when each of those
/// events was a scatter.
pub proof fn lemma_budget_bounds_path(depth: int, events: Seq<Event>)
    requires
        0 <= depth <= i32::MAX,
        events.len() >= depth,
    ensures
        spec_run(spec_start(depth), events) is End,
        spec_run(spec_start(depth), events) == (Next::End { end: PathEnd::Exhausted }) <==> (
        forall|i: int| 0 <= i < depth ==> events[i] == Event::Scatter),
    decreases depth,
{
    if depth > 0 {
        let rest = events.drop_first();
        let e0 = events[0];
        assert(spec_start(depth) == (Next::Trace { depth: depth as i32 }));
        assert(spec_run(spec_start(depth), events) == spec_run(spec_after(depth, e0), rest));
        lemma_budget_bounds_path(depth - 1, rest);
        if e0 == Event::Scatter {
            assert(spec_after(depth, e0) == spec_start(depth - 1));
            if forall|i: int| 0 <= i < depth - 1 ==> rest[i] == Event::Scatter {
                assert forall|i: int| 0 <= i < depth implies events[i] == Event::Scatter by {
                    if i > 0 {
                        assert(rest[i - 1] == events[i]);
                    }
                }
            }
            if forall|i: int| 0 <= i < depth ==> events[i] == Event::Scatter {
                assert forall|i: int| 0 <= i < depth - 1 implies rest[i] == Event::Scatter by {
                    assert(rest[i] == events[i + 1]);
                }
            }
        }
    }
}

} // verus!
