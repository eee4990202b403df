//! One turn of the frame loop: the polled events are dispatched, the
//! simulation is advanced if a generation is due, and the board is painted.
//!
//! Polling the events and copying the frame to the screen lie on either side
//! of a turn and are the platform's work; the loop goes on for as long as
//! the surface is running.

use crate::framebuffer::{Dispatch, Event, Framebuffer, SurfaceState};
use crate::game::{painted, Game};
use vstd::prelude::*;

verus! {

/// The key codes whose listeners a batch of events reaches, in the order of
/// the events. Nothing after a quit request is looked at.
pub open spec fn keys_reached<L>(state: SurfaceState<L>, events: Seq<Event>) -> Seq<u32>
    decreases events.len(),
{
    if events.len() == 0 {
        Seq::empty()
    } else {
        match state.dispatch(events[0]) {
            Dispatch::Stop => Seq::empty(),
            Dispatch::Invoke(keycode) => seq![keycode] + keys_reached(state, events.drop_first()),
            Dispatch::Ignore => keys_reached(state, events.drop_first()),
        }
    }
}

/// The state after a batch of events: stopped by the first quit request
/// among them, unchanged if there is none.
pub open spec fn after_events<L>(state: SurfaceState<L>, events: Seq<Event>) -> SurfaceState<L>
    decreases events.len(),
{
    if events.len() == 0 {
        state
    } else if events[0] == Event::Quit {
        state.with_running(false)
    } else {
        after_events(state, events.drop_first())
    }
}

/// Proves that a batch of events changes nothing but the run flag, and
/// never sets it.
pub proof fn lemma_events_only_stop<L>(state: SurfaceState<L>, events: Seq<Event>)
    ensures
        after_events(state, events) == state || after_events(state, events) == state.with_running(
            false,
        ),
        after_events(state, events).running ==> state.running,
    decreases events.len(),
{
    if events.len() > 0 && events[0] != Event::Quit {
        lemma_events_only_stop(state, events.drop_first());
    }
}

/// Dispatches a batch of polled events, in their order and up to the first
/// quit request, and returns the key codes whose listeners are to be
/// invoked. A quit request stops the surface.
pub fn poll_and_dispatch<F: Framebuffer>(fb: &mut F, events: &Vec<Event>) -> (keys: Vec<u32>)
    ensures
        keys@ == keys_reached(old(fb)@, events@),
        final(fb)@ == after_events(old(fb)@, events@),
{
    let ghost before = fb@;
    let mut keys: Vec<u32> = Vec::new();
    let mut i: usize = 0;
    proof {
        assert(events@.skip(0) =~= events@);
    }
    while i < events.len()
        invariant
            i <= events.len(),
            before == old(fb)@,
            fb@ == before,
            keys_reached(before, events@) == keys@ + keys_reached(before, events@.skip(i as int)),
            after_events(before, events@) == after_events(before, events@.skip(i as int)),
        decreases events.len() - i,
    {
        let event: Event = events[i];
        let ghost rest = events@.skip(i as int);
        proof {
            assert(rest[0] == event);
            assert(rest.drop_first() =~= events@.skip(i + 1));
        }
        match fb.handle_event(event) {
            Dispatch::Stop => {
                proof {
                    assert(keys_reached(before, rest) == Seq::<u32>::empty());
                    assert(after_events(before, rest) == before.with_running(false));
                    assert(keys@ + Seq::<u32>::empty() =~= keys@);
                }
                return keys;
            },
            Dispatch::Invoke(keycode) => {
                proof {
                    let later = keys_reached(before, events@.skip(i + 1));
                    assert(keys@.push(keycode) + later =~= keys@ + (seq![keycode] + later));
                }
                keys.push(keycode);
            },
            Dispatch::Ignore => {},
        }
        i += 1;
    }
    proof {
        assert(keys@ + Seq::<u32>::empty() =~= keys@);
    }
    keys
}

/// Advances the game if a generation is due at `now`, then paints its
/// current generation on the surface.
pub fn run_frame<F: Framebuffer>(game: &mut Game, fb: &mut F, now: u64, palette: &Vec<u32>)
    requires
        old(game)@.wf(),
        old(fb)@.wf(),
        palette@.len() == old(game)@.board.cells.len(),
        old(game)@.board.width * old(game)@.tile_pixel_size <= old(fb)@.width,
        old(game)@.board.height * old(game)@.tile_pixel_size <= old(fb)@.height,
    ensures
        final(game)@ == old(game)@.updated(now as nat),
        final(game)@.wf(),
        final(fb)@ == painted(
            old(fb)@,
            final(game)@.board,
            palette@,
            old(game)@.tile_pixel_size as int,
        ),
        final(fb)@.wf(),
{
    game.update(now);
    game.render(fb, palette);
}

} // verus!
