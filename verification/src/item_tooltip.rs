//! The hover/fade state machine of item tooltips.
//!
//! Widgets report each frame whether the mouse is over them; once per frame
//! the manager advances: a tooltip shows after the mouse rested on the same
//! widget for the hover duration, and fades out over the fade duration when
//! the mouse leaves or moves to another widget, whose tooltip then starts.
//!
//! Times are whole nanoseconds on the caller's monotonic clock; `P` is the
//! caller's mouse position type, only carried.
use vstd::prelude::*;

verus! {

/// A widget key and the mouse position over it.
#[derive(Debug, Clone, Copy, PartialEq)]
pub struct Hover<K, P>(pub K, pub P);

/// What the tooltip machinery is doing.
#[derive(Debug, Clone, Copy, PartialEq)]
pub enum HoverState<K, P> {
    /// The tooltip of the hovered widget fades out since `0`; the optional
    /// widget hovered since its time waits for its own tooltip.
    Fading(u64, Hover<K, P>, Option<(u64, K)>),
    /// A widget is hovered since the given time.
    Start(u64, K),
    /// No tooltip.
    Nothing,
}

/// How opaque a shown tooltip is.
#[derive(Debug, Clone, Copy, PartialEq, Eq)]
pub enum Opacity {
    Full,
    /// Fading out: `elapsed` of `duration` nanoseconds have passed, and
    /// `elapsed < duration`.
    Fading { elapsed: u64, duration: u64 },
}

/// Time passed from `start` to `now`, `0` when `now` is earlier.
pub open spec fn elapsed(now: u64, start: u64) -> u64 {
    if now >= start {
        (now - start) as u64
    } else {
        0
    }
}

/// The abstract state of an [`ItemTooltipManager`].
pub struct TooltipView<K, P> {
    pub state: HoverState<K, P>,
    /// What widgets reported since the last frame: `Some(Some(..))` the mouse
    /// is over a widget, `Some(None)` it left, `None` nothing was reported.
    pub update: Option<Option<(K, P)>>,
    pub hover_pos: P,
    pub hover_dur: u64,
    pub fade_dur: u64,
}

impl<K, P> TooltipView<K, P> {
    /// The state after taking this frame's report.
    pub open spec fn reported_state(self, now: u64) -> HoverState<K, P> {
        match self.update {
            Some(Some((key, pos))) => match self.state {
                HoverState::Fading(start, hover, next) => match next {
                    Some((_, id)) => if id == key {
                        self.state
                    } else {
                        HoverState::Fading(start, hover, Some((now, key)))
                    },
                    None => HoverState::Fading(start, hover, Some((now, key))),
                },
                HoverState::Start(_, id) => if id == key {
                    self.state
                } else {
                    HoverState::Fading(now, Hover(id, pos), Some((now, key)))
                },
                HoverState::Nothing => HoverState::Start(now, key),
            },
            Some(None) => match self.state {
                HoverState::Start(_, id) => HoverState::Fading(now, Hover(id, self.hover_pos), None),
                HoverState::Fading(start, hover, _) => HoverState::Fading(start, hover, None),
                HoverState::Nothing => self.state,
            },
            None => self.state,
        }
    }

    /// The manager after one frame at time `now`.
    pub open spec fn maintained(self, now: u64) -> Self {
        let reported = self.reported_state(now);
        let state = match reported {
            HoverState::Fading(start, _, next) => if elapsed(now, start) > self.fade_dur {
                match next {
                    Some((start, key)) => HoverState::Start(start, key),
                    None => HoverState::Nothing,
                }
            } else {
                reported
            },
            _ => reported,
        };
        TooltipView {
            state,
            update: None,
            hover_pos: match self.update {
                Some(Some((_, pos))) => pos,
                _ => self.hover_pos,
            },
            ..self
        }
    }

    /// The position and opacity of the tooltip of `key` at time `now`, if
    /// it shows.
    pub open spec fn showing(self, key: K, now: u64) -> Option<(P, Opacity)> {
        match self.state {
            HoverState::Fading(start, Hover(id, pos), _) => if id == key && elapsed(now, start)
                < self.fade_dur {
                Some(
                    (
                        pos,
                        Opacity::Fading { elapsed: elapsed(now, start), duration: self.fade_dur },
                    ),
                )
            } else {
                None
            },
            HoverState::Start(start, id) => if id == key && elapsed(now, start) > self.hover_dur {
                Some((self.hover_pos, Opacity::Full))
            } else {
                None
            },
            HoverState::Nothing => None,
        }
    }
}

/// Hover/fade state machine for item tooltips.
///
/// Widgets report hover through [`ItemTooltipManager::update`]; call
/// [`ItemTooltipManager::maintain`] once per frame before building the UI.
pub struct ItemTooltipManager<K, P> {
    state: HoverState<K, P>,
    update: Option<Option<(K, P)>>,
    hover_pos: P,
    // How long before a tooltip is displayed when hovering.
    hover_dur: u64,
    // How long it takes a tooltip to disappear.
    fade_dur: u64,
}

impl<K, P> View for ItemTooltipManager<K, P> {
    type V = TooltipView<K, P>;

    closed spec fn view(&self) -> TooltipView<K, P> {
        TooltipView {
            state: self.state,
            update: self.update,
            hover_pos: self.hover_pos,
            hover_dur: self.hover_dur,
            fade_dur: self.fade_dur,
        }
    }
}

fn elapsed_since(now: u64, start: u64) -> (e: u64)
    ensures
        e == elapsed(now, start),
{
    if now >= start {
        now - start
    } else {
        0
    }
}

fn keys_equal<K: PartialEq>(a: &K, b: &K) -> (r: bool)
    requires
        crate::drag::slot_eq_is_equality::<K>(),
    ensures
        r == (*a == *b),
{
    *a == *b
}

impl<K: PartialEq + Copy, P: Copy> ItemTooltipManager<K, P> {
    /// A manager showing nothing; `origin` is the initial hover position.
    pub fn new(hover_dur: u64, fade_dur: u64, origin: P) -> (m: Self)
        ensures
            m@ == (TooltipView::<K, P> {
                state: HoverState::Nothing,
                update: None,
                hover_pos: origin,
                hover_dur,
                fade_dur,
            }),
    {
        ItemTooltipManager {
            state: HoverState::Nothing,
            update: None,
            hover_pos: origin,
            hover_dur,
            fade_dur,
        }
    }

    /// Reports that the mouse is hovering the tooltipped widget `key` at the
    /// given position, or `None` when the mouse left it.
    pub fn update(&mut self, hover: Option<(K, P)>)
        ensures
            final(self)@ == (TooltipView { update: Some(hover), ..old(self)@ }),
    {
        self.update = Some(hover);
    }

    /// Advances the state machine; call once per frame with the current time.
    pub fn maintain(&mut self, now: u64)
        requires
            crate::drag::slot_eq_is_equality::<K>(),
        ensures
            final(self)@ == old(self)@.maintained(now),
            frame_is_sound(old(self)@, final(self)@, now),
    {
        let hover = self.update;
        self.update = None;
        let state = self.state;
        let reported = match hover {
            Some(Some((key, pos))) => {
                self.hover_pos = pos;
                match state {
                    HoverState::Fading(start, h, next) => match next {
                        Some((_, id)) => if keys_equal(&id, &key) {
                            state
                        } else {
                            HoverState::Fading(start, h, Some((now, key)))
                        },
                        None => HoverState::Fading(start, h, Some((now, key))),
                    },
                    HoverState::Start(_, id) => if keys_equal(&id, &key) {
                        state
                    } else {
                        // A different widget is hovered: fade out the old tooltip.
                        HoverState::Fading(now, Hover(id, pos), Some((now, key)))
                    },
                    HoverState::Nothing => HoverState::Start(now, key),
                }
            },
            // The mouse left the widget: fade out the displayed tooltip.
            Some(None) => match state {
                HoverState::Start(_, id) => HoverState::Fading(now, Hover(id, self.hover_pos), None),
                HoverState::Fading(start, h, _) => HoverState::Fading(start, h, None),
                HoverState::Nothing => state,
            },
            // No widget reported this frame: keep the current state.
            None => state,
        };
        // Handle fade timing.
        self.state = match reported {
            HoverState::Fading(start, _, next) => if elapsed_since(now, start) > self.fade_dur {
                match next {
                    Some((start, key)) => HoverState::Start(start, key),
                    None => HoverState::Nothing,
                }
            } else {
                reported
            },
            _ => reported,
        };
    }

    /// The hover position and opacity of the tooltip of `key` at time `now`,
    /// if it should currently be shown.
    pub fn showing(&self, key: K, now: u64) -> (r: Option<(P, Opacity)>)
        requires
            crate::drag::slot_eq_is_equality::<K>(),
        ensures
            r == self@.showing(key, now),
            showing_is_sound(self@, key, now, r),
    {
        match self.state {
            HoverState::Fading(start, Hover(id, pos), _) => {
                let e = elapsed_since(now, start);
                if keys_equal(&id, &key) && e < self.fade_dur {
                    Some((pos, Opacity::Fading { elapsed: e, duration: self.fade_dur }))
                } else {
                    None
                }
            },
            HoverState::Start(start, id) => {
                if keys_equal(&id, &key) && elapsed_since(now, start) > self.hover_dur {
                    Some((self.hover_pos, Opacity::Full))
                } else {
                    None
                }
            },
            HoverState::Nothing => None,
        }
    }
}

/// At most one tooltip shows at a time.
pub proof fn lemma_one_tooltip_at_a_time<K, P>(v: TooltipView<K, P>, a: K, b: K, now: u64)
    requires
        v.showing(a, now) is Some,
        v.showing(b, now) is Some,
    ensures
        a == b,
{
}

/// A tooltip shows fully only for the widget hovered since longer than the
/// hover duration, at the last reported mouse position; a fading tooltip is
/// less than its fade duration into the fade.
pub proof fn lemma_showing_timing<K, P>(v: TooltipView<K, P>, key: K, now: u64)
    ensures
        v.showing(key, now) matches Some((pos, Opacity::Full)) ==> {
            &&& v.state matches HoverState::Start(start, id)
            &&& id == key
            &&& elapsed(now, start) > v.hover_dur
            &&& pos == v.hover_pos
        },
        v.showing(key, now) matches Some((_, Opacity::Fading { elapsed: e, duration: d })) ==> e
            < d && d == v.fade_dur,
{
}

/// A frame consumes the widgets' report; a frame without report and without
/// an expiring fade leaves the state as it is.
pub proof fn lemma_quiet_frame_keeps_state<K, P>(v: TooltipView<K, P>, now: u64)
    ensures
        v.maintained(now).update is None,
        v.update is None && !(v.state matches HoverState::Fading(start, _, _) && elapsed(
            now,
            start,
        ) > v.fade_dur) ==> v.maintained(now).state == v.state,
        v.maintained(now).hover_dur == v.hover_dur && v.maintained(now).fade_dur == v.fade_dur,
{
}

/// Once its fade duration has passed, a fading tooltip is gone after the next
/// frame, and the widget that was hovered meanwhile starts its own tooltip
/// from the time it was first hovered.
pub proof fn lemma_fade_completes<K, P>(v: TooltipView<K, P>, now: u64)
    requires
        v.update is None,
        v.state matches HoverState::Fading(start, _, _) && elapsed(now, start) > v.fade_dur,
    ensures
        v.maintained(now).state == match v.state {
            HoverState::Fading(_, _, Some((t, k))) => HoverState::Start(t, k),
            _ => HoverState::<K, P>::Nothing,
        },
{
}


/// What one frame does, in terms of what the widgets reported:
/// - reporting the widget already hovered keeps its hover start, so the
///   tooltip shows once the mouse has rested long enough;
/// - a first hover starts the hover at this frame;
/// - reporting another widget than the hovered one starts fading the old
///   tooltip now, at the reported position, with the new widget waiting;
/// - leaving the hovered widget starts fading its tooltip now;
/// - the report is consumed, the durations are kept, and the hover position
///   becomes the reported one.
pub open spec fn frame_is_sound<K, P>(v: TooltipView<K, P>, w: TooltipView<K, P>, now: u64) -> bool {
    &&& w.update is None
    &&& w.hover_dur == v.hover_dur && w.fade_dur == v.fade_dur
    &&& w.hover_pos == match v.update {
        Some(Some((_, pos))) => pos,
        _ => v.hover_pos,
    }
    &&& match (v.state, v.update) {
        (HoverState::Start(t, k), Some(Some((k2, pos)))) => if k2 == k {
            w.state == HoverState::<K, P>::Start(t, k)
        } else {
            w.state == HoverState::Fading(now, Hover(k, pos), Some((now, k2)))
        },
        (HoverState::Start(_, k), Some(None)) => w.state == HoverState::Fading(
            now,
            Hover(k, v.hover_pos),
            None,
        ),
        (HoverState::Nothing, Some(Some((k, _)))) => w.state == HoverState::<K, P>::Start(now, k),
        (HoverState::Nothing, _) => w.state is Nothing,
        _ => true,
    }
}

/// What a shown tooltip must satisfy: it fully shows only the widget hovered
/// for longer than the hover duration, at the last hover position; it fades
/// only the widget whose tooltip is fading, less than the fade duration into
/// the fade; and the hovered widget's tooltip does show once the hover
/// duration has passed.
pub open spec fn showing_is_sound<K, P>(
    v: TooltipView<K, P>,
    key: K,
    now: u64,
    r: Option<(P, Opacity)>,
) -> bool {
    match r {
        Some((pos, Opacity::Full)) => match v.state {
            HoverState::Start(t, k) => k == key && elapsed(now, t) > v.hover_dur && pos
                == v.hover_pos,
            _ => false,
        },
        Some((pos, Opacity::Fading { elapsed: e, duration: d })) => match v.state {
            HoverState::Fading(t, Hover(k, p), _) => k == key && p == pos && e == elapsed(now, t)
                && e < d && d == v.fade_dur,
            _ => false,
        },
        None => match v.state {
            HoverState::Start(t, k) => !(k == key && elapsed(now, t) > v.hover_dur),
            HoverState::Fading(t, Hover(k, _), _) => !(k == key && elapsed(now, t) < v.fade_dur),
            HoverState::Nothing => true,
        },
    }
}

/// Every frame is sound in the sense of [`frame_is_sound`], and every query
/// in the sense of [`showing_is_sound`].
pub proof fn lemma_tooltip_frames_are_sound<K, P>(v: TooltipView<K, P>, key: K, now: u64, later: u64)
    ensures
        frame_is_sound(v, v.maintained(now), now),
        showing_is_sound(v, key, later, v.showing(key, later)),
{
}

/// A mouse that rests on one widget, reported every frame, gets its tooltip
/// once it has rested longer than the hover duration: the hover start is
/// the first frame of the rest.
pub proof fn lemma_resting_mouse_shows_tooltip<K, P>(
    v: TooltipView<K, P>,
    key: K,
    pos: P,
    t: u64,
    now: u64,
    later: u64,
)
    requires
        v.state == HoverState::<K, P>::Start(t, key),
        v.update == Some(Some((key, pos))),
        elapsed(later, t) > v.hover_dur,
    ensures
        v.maintained(now).state == HoverState::<K, P>::Start(t, key),
        v.maintained(now).showing(key, later) == Some((pos, Opacity::Full)),
{
}

} // verus!
