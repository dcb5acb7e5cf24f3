//! Item slot logic: the amount label with SI prefixes, and the decisions an
//! item slot makes from its input events and the shared drag manager.
use crate::drag::{DragManager, DragView, Interaction, Modifiers, Vec2i};
use crate::text::{push_char, push_decimal};
use vstd::prelude::*;

verus! {

/// `10^e`.
pub open spec fn pow10(e: nat) -> nat
    decreases e,
{
    if e == 0 {
        1
    } else {
        10 * pow10((e - 1) as nat)
    }
}

/// `a - b`, or `0` when `b > a`.
pub open spec fn saturating_sub(a: u32, b: u32) -> nat {
    if a >= b {
        (a - b) as nat
    } else {
        0
    }
}

/// Whether `format_amount` can run with these settings: with prefixes the
/// divisor `10^(prefix_switch_point - 4)` must fit in a `u32`.
pub open spec fn amount_format_ok(use_prefixes: bool, prefix_switch_point: u32) -> bool {
    use_prefixes ==> saturating_sub(prefix_switch_point, 4) <= 9
}

/// The amount label: with prefixes, `amount / 10^(switch - 4)` decides the
/// unit (`G` from a billion, `M` from a million, `K` from a thousand) and the
/// amount is shown divided by that unit, rounded down; otherwise the plain
/// decimal amount.
pub open spec fn amount_text(amount: u32, use_prefixes: bool, prefix_switch_point: u32) -> Seq<char> {
    if use_prefixes {
        let threshold = amount as nat / pow10(saturating_sub(prefix_switch_point, 4));
        if threshold >= 1_000_000_000 {
            crate::text::decimal(amount as nat / 1_000_000_000).push('G')
        } else if threshold >= 1_000_000 {
            crate::text::decimal(amount as nat / 1_000_000).push('M')
        } else if threshold >= 1_000 {
            crate::text::decimal(amount as nat / 1_000).push('K')
        } else {
            crate::text::decimal(amount as nat)
        }
    } else {
        crate::text::decimal(amount as nat)
    }
}

proof fn lemma_pow10_monotone(a: nat, b: nat)
    requires
        a <= b,
    ensures
        1 <= pow10(a) <= pow10(b),
    decreases b,
{
    if b > a {
        lemma_pow10_monotone(a, (b - 1) as nat);
    } else if a > 0 {
        lemma_pow10_monotone((a - 1) as nat, (b - 1) as nat);
    }
}

proof fn lemma_pow10_bounded(e: nat)
    requires
        e <= 9,
    ensures
        1 <= pow10(e) <= 1_000_000_000,
        e < 9 ==> pow10(e) <= 100_000_000,
{
    reveal_with_fuel(pow10, 10);
    assert(pow10(8) == 100_000_000);
    if e < 9 {
        lemma_pow10_monotone(e, 8);
    } else {
        assert(pow10(9) == 1_000_000_000);
    }
}

fn pow10_u32(e: u32) -> (p: u32)
    requires
        e <= 9,
    ensures
        p as nat == pow10(e as nat),
        p >= 1,
{
    let mut p: u32 = 1;
    let mut i: u32 = 0;
    while i < e
        invariant
            i <= e <= 9,
            p as nat == pow10(i as nat),
        decreases e - i,
    {
        proof {
            lemma_pow10_bounded(i as nat);
        }
        p = p * 10;
        i = i + 1;
    }
    proof {
        lemma_pow10_bounded(e as nat);
    }
    p
}

/// What the amount label says: without prefixes, or for amounts below a
/// thousand, the plain decimal amount; with prefixes and a switch point of
/// at most 4, an amount from a thousand to below a million is shown in
/// thousands with `K`, from a million to below a billion in millions with
/// `M`, and from a billion in billions with `G`. No label is empty.
pub proof fn lemma_amount_label_laws(amount: u32, use_prefixes: bool, prefix_switch_point: u32)
    requires
        amount_format_ok(use_prefixes, prefix_switch_point),
    ensures
        !use_prefixes ==> amount_text(amount, use_prefixes, prefix_switch_point)
            == crate::text::decimal(amount as nat),
        amount < 1000 ==> amount_text(amount, use_prefixes, prefix_switch_point)
            == crate::text::decimal(amount as nat),
        use_prefixes && prefix_switch_point <= 4 && 1000 <= amount < 1_000_000 ==> amount_text(
            amount,
            use_prefixes,
            prefix_switch_point,
        ) == crate::text::decimal(amount as nat / 1000).push('K'),
        use_prefixes && prefix_switch_point <= 4 && 1_000_000 <= amount < 1_000_000_000
            ==> amount_text(amount, use_prefixes, prefix_switch_point) == crate::text::decimal(
            amount as nat / 1_000_000,
        ).push('M'),
        use_prefixes && prefix_switch_point <= 4 && 1_000_000_000 <= amount ==> amount_text(
            amount,
            use_prefixes,
            prefix_switch_point,
        ) == crate::text::decimal(amount as nat / 1_000_000_000).push('G'),
        amount_text(amount, use_prefixes, prefix_switch_point).len() > 0,
{
    let e = saturating_sub(prefix_switch_point, 4);
    if use_prefixes {
        lemma_pow10_monotone(0, e);
        let d = pow10(e);
        assert(amount as nat / d <= amount) by (nonlinear_arith)
            requires
                d >= 1,
        ;
        if prefix_switch_point <= 4 {
            assert(pow10(0) == 1);
            assert(amount as nat / 1 == amount);
        }
    }
    lemma_decimal_nonempty(amount as nat);
    lemma_decimal_nonempty(amount as nat / 1000);
    lemma_decimal_nonempty(amount as nat / 1_000_000);
    lemma_decimal_nonempty(amount as nat / 1_000_000_000);
}

proof fn lemma_decimal_nonempty(n: nat)
    ensures
        crate::text::decimal(n).len() > 0,
    decreases n,
{
    if n >= 10 {
        lemma_decimal_nonempty(n / 10);
    }
}

/// Formats an amount with SI prefixes.
pub fn format_amount(amount: u32, use_prefixes: bool, prefix_switch_point: u32) -> (s: String)
    requires
        amount_format_ok(use_prefixes, prefix_switch_point),
    ensures
        s@ == amount_text(amount, use_prefixes, prefix_switch_point),
{
    let mut s = String::new();
    if use_prefixes {
        let e = if prefix_switch_point >= 4 {
            prefix_switch_point - 4
        } else {
            0
        };
        let threshold = amount / pow10_u32(e);
        if threshold >= 1_000_000_000 {
            push_decimal(&mut s, amount / 1_000_000_000);
            push_char(&mut s, 'G');
        } else if threshold >= 1_000_000 {
            push_decimal(&mut s, amount / 1_000_000);
            push_char(&mut s, 'M');
        } else if threshold >= 1_000 {
            push_decimal(&mut s, amount / 1_000);
            push_char(&mut s, 'K');
        } else {
            push_decimal(&mut s, amount);
        }
    } else {
        push_decimal(&mut s, amount);
    }
    proof {
        assert forall|t: Seq<char>| Seq::<char>::empty() + t =~= t by {}
    }
    s
}

/// Input state of one item slot, held by the caller between events; `P` is
/// the caller's cursor position type, only stored here.
pub struct SlotState<P> {
    pub hover: bool,
    pub pressed: bool,
    pub press_pos: P,
    pub click_count: u32,
    pub modifiers: Modifiers,
}

impl<P: Copy> SlotState<P> {
    /// The state of a slot nobody has touched yet; `origin` is the press
    /// position it starts with.
    pub fn new(origin: P) -> (s: Self)
        ensures
            !s.hover,
            !s.pressed,
            s.press_pos == origin,
            s.click_count == 0,
            s.modifiers == Modifiers::default_spec(),
    {
        SlotState {
            hover: false,
            pressed: false,
            press_pos: origin,
            click_count: 0,
            modifiers: Modifiers { shift: false, control: false, alt: false, logo: false },
        }
    }
}

impl Modifiers {
    /// No modifier held.
    pub open spec fn default_spec() -> Modifiers {
        Modifiers { shift: false, control: false, alt: false, logo: false }
    }
}

/// An input event as an item slot sees it.
#[derive(Debug, Clone, Copy)]
pub enum SlotEvent<P> {
    /// The cursor moved; `moved_past_threshold` tells whether it is now far
    /// enough from the press position to start a drag.
    CursorMoved { moved_past_threshold: bool },
    /// The left button was pressed with the cursor at `pos`.
    LeftPressed { pos: P },
    /// The left button was released.
    LeftReleased,
    /// The right button was pressed.
    RightPressed,
    /// The held keyboard modifiers changed.
    ModifiersChanged(Modifiers),
    /// Anything else.
    Other,
}

/// What a slot asks of the drag manager after an input event.
#[derive(Debug, Clone, Copy, PartialEq)]
pub enum SlotRequest<S> {
    DragStart { slot: S, amount: Option<u32> },
    Click { slot: S, filled: bool, click_count: u32, modifiers: Modifiers },
    Release { cursor: Vec2i },
    RightClick { slot: S, cursor: Vec2i },
}

/// The slot state after `event`, with `in_bounds` telling whether the cursor
/// is over the slot.
pub open spec fn slot_state_after<P>(s: SlotState<P>, event: SlotEvent<P>, in_bounds: bool) -> SlotState<P> {
    match event {
        SlotEvent::CursorMoved { .. } => SlotState { hover: in_bounds, ..s },
        SlotEvent::LeftPressed { pos } => if in_bounds && !s.pressed {
            SlotState { pressed: true, press_pos: pos, click_count: (s.click_count + 1) as u32, ..s }
        } else {
            s
        },
        SlotEvent::LeftReleased => SlotState { pressed: false, ..s },
        SlotEvent::ModifiersChanged(m) => SlotState { modifiers: m, ..s },
        _ => s,
    }
}

/// The request a slot makes of the drag manager after `event`.
pub open spec fn slot_request<S, P>(
    s: SlotState<P>,
    event: SlotEvent<P>,
    in_bounds: bool,
    cursor: Vec2i,
    slot: S,
    filled: bool,
    amount: Option<u32>,
) -> Option<SlotRequest<S>> {
    match event {
        SlotEvent::CursorMoved { moved_past_threshold } => if s.pressed && moved_past_threshold
            && filled {
            Some(SlotRequest::DragStart { slot, amount })
        } else {
            None
        },
        SlotEvent::LeftPressed { .. } => if in_bounds && !s.pressed {
            Some(
                SlotRequest::Click {
                    slot,
                    filled,
                    click_count: (s.click_count + 1) as u32,
                    modifiers: s.modifiers,
                },
            )
        } else {
            None
        },
        SlotEvent::LeftReleased => Some(SlotRequest::Release { cursor }),
        SlotEvent::RightPressed => if in_bounds {
            Some(SlotRequest::RightClick { slot, cursor })
        } else {
            None
        },
        _ => None,
    }
}


/// What any request of a slot must satisfy: only a press or right press
/// with the cursor over the slot clicks or uses it; a drag only starts from
/// a filled slot that is held down and moved far enough, with the slot's
/// amount; a release always reports the cursor; clicks carry the slot, its
/// filling, the held modifiers and the new click count; a right press over
/// the slot always asks to use it.
pub open spec fn request_is_sound<S, P>(
    s: SlotState<P>,
    event: SlotEvent<P>,
    in_bounds: bool,
    cursor: Vec2i,
    slot: S,
    filled: bool,
    amount: Option<u32>,
    request: Option<SlotRequest<S>>,
) -> bool {
    &&& request matches Some(SlotRequest::Click { slot: k, filled: f, click_count: c, modifiers: m })
        ==> event is LeftPressed && in_bounds && !s.pressed && k == slot && f == filled && c
        == s.click_count + 1 && m == s.modifiers
    &&& request matches Some(SlotRequest::RightClick { slot: k, cursor: c }) ==> event is RightPressed
        && in_bounds && k == slot && c == cursor
    &&& request matches Some(SlotRequest::DragStart { slot: k, amount: a }) ==> (
    event matches SlotEvent::CursorMoved { moved_past_threshold } && moved_past_threshold)
        && s.pressed && filled && k == slot && a == amount
    &&& request matches Some(SlotRequest::Release { cursor: c }) ==> event is LeftReleased && c
        == cursor
    &&& event is LeftReleased ==> request == Some(SlotRequest::<S>::Release { cursor })
    &&& (event is RightPressed && in_bounds) ==> request == Some(
        SlotRequest::RightClick { slot, cursor },
    )
    &&& (event is RightPressed && !in_bounds) ==> request is None
    &&& (event is LeftPressed && in_bounds && !s.pressed) ==> request is Some
    &&& (event is ModifiersChanged || event is Other) ==> request is None
}

/// How the click count moves: a press over a slot that is not held down
/// counts exactly one click and holds the slot down; nothing else counts.
pub open spec fn press_counts_once<P>(
    before: SlotState<P>,
    after: SlotState<P>,
    event: SlotEvent<P>,
    in_bounds: bool,
) -> bool {
    &&& (event is LeftPressed && in_bounds && !before.pressed) ==> after.click_count
        == before.click_count + 1 && after.pressed
    &&& !(event is LeftPressed && in_bounds && !before.pressed) ==> after.click_count
        == before.click_count
    &&& event is LeftReleased ==> !after.pressed
    &&& (event is CursorMoved) ==> after.hover == in_bounds
}

/// Every request a slot makes is sound in the sense of
/// [`request_is_sound`], and its click counting follows
/// [`press_counts_once`].
pub proof fn lemma_slot_requests_are_sound<S, P>(
    s: SlotState<P>,
    event: SlotEvent<P>,
    in_bounds: bool,
    cursor: Vec2i,
    slot: S,
    filled: bool,
    amount: Option<u32>,
)
    requires
        s.click_count < u32::MAX,
    ensures
        request_is_sound(
            s,
            event,
            in_bounds,
            cursor,
            slot,
            filled,
            amount,
            slot_request(s, event, in_bounds, cursor, slot, filled, amount),
        ),
        press_counts_once(s, slot_state_after(s, event, in_bounds), event, in_bounds),
{
}

/// Handles an input event on an item slot: updates hover, press and click
/// counting, and returns what the slot asks of the drag manager. A press
/// inside the slot counts a click; moving the cursor far enough while pressed
/// on a filled slot starts a drag.
pub fn slot_on_event<S: Copy, P: Copy>(
    state: &mut SlotState<P>,
    event: SlotEvent<P>,
    in_bounds: bool,
    cursor: Vec2i,
    slot: S,
    filled: bool,
    amount: Option<u32>,
) -> (request: Option<SlotRequest<S>>)
    requires
        old(state).click_count < u32::MAX,
    ensures
        *final(state) == slot_state_after(*old(state), event, in_bounds),
        request == slot_request(*old(state), event, in_bounds, cursor, slot, filled, amount),
        request_is_sound(*old(state), event, in_bounds, cursor, slot, filled, amount, request),
        press_counts_once(*old(state), *final(state), event, in_bounds),
{
    match event {
        SlotEvent::CursorMoved { moved_past_threshold } => {
            let request = if state.pressed && moved_past_threshold && filled {
                Some(SlotRequest::DragStart { slot, amount })
            } else {
                None
            };
            state.hover = in_bounds;
            request
        },
        SlotEvent::LeftPressed { pos } => {
            if in_bounds && !state.pressed {
                state.pressed = true;
                state.press_pos = pos;
                state.click_count = state.click_count + 1;
                Some(
                    SlotRequest::Click {
                        slot,
                        filled,
                        click_count: state.click_count,
                        modifiers: state.modifiers,
                    },
                )
            } else {
                None
            }
        },
        SlotEvent::LeftReleased => {
            state.pressed = false;
            Some(SlotRequest::Release { cursor })
        },
        SlotEvent::RightPressed => {
            if in_bounds {
                Some(SlotRequest::RightClick { slot, cursor })
            } else {
                None
            }
        },
        SlotEvent::ModifiersChanged(modifiers) => {
            state.modifiers = modifiers;
            None
        },
        SlotEvent::Other => None,
    }
}

/// The manager after serving a slot's request.
pub open spec fn after_request<S>(v: DragView<S>, request: SlotRequest<S>) -> DragView<S> {
    match request {
        SlotRequest::DragStart { slot, amount } => v.after_drag_start(slot, amount),
        SlotRequest::Click { slot, filled, click_count, modifiers } => v.after_click(
            slot,
            filled,
            click_count,
            modifiers,
        ),
        SlotRequest::Release { cursor } => v.after_release(cursor),
        SlotRequest::RightClick { slot, cursor } => v.after_right_click(slot, cursor),
    }
}

/// Serves a slot's request on the drag manager.
pub fn serve_request<S: PartialEq + Copy>(drag: &mut DragManager<S>, request: SlotRequest<S>)
    requires
        crate::drag::slot_eq_is_equality::<S>(),
    ensures
        final(drag)@ == after_request(old(drag)@, request),
{
    match request {
        SlotRequest::DragStart { slot, amount } => drag.on_drag_start(slot, amount),
        SlotRequest::Click { slot, filled, click_count, modifiers } => drag.on_click(
            slot,
            filled,
            click_count,
            modifiers,
        ),
        SlotRequest::Release { cursor } => drag.on_release(cursor),
        SlotRequest::RightClick { slot, cursor } => drag.on_right_click(slot, cursor),
    }
}

/// Which frame image a slot draws.
#[derive(Debug, Clone, Copy, PartialEq, Eq)]
pub enum SlotFrame {
    Empty,
    Filled,
    Selected,
}

/// How a slot draws its content image.
#[derive(Debug, Clone, Copy, PartialEq, Eq)]
pub enum ContentScale {
    /// At its normal size.
    Normal,
    /// Scaled by the slot's selected-content scale.
    Selected,
}

/// What an item slot draws in a frame.
pub struct SlotLook {
    pub frame: SlotFrame,
    /// Whether the slot's icon is drawn (only when no content is shown).
    pub icon: bool,
    /// Whether and how the content image is drawn.
    pub content: Option<ContentScale>,
    /// Whether the hover highlight is drawn.
    pub hover_highlight: bool,
    /// Whether the dragged content follows the cursor.
    pub drag_ghost: bool,
    /// The amount label, if one is drawn.
    pub amount: Option<String>,
    /// Whether the mouse cursor becomes a pointer.
    pub pointer: bool,
}

/// Decides what an item slot draws: a dragged slot shows neither content nor
/// amount but a ghost at the cursor; a selected slot uses the selected frame
/// and scaled content; the icon only shows on a slot without content.
pub fn slot_look(
    interaction: Interaction,
    has_content: bool,
    has_icon: bool,
    hover: bool,
    menu_hover: bool,
    has_manager: bool,
    amount: Option<u32>,
    use_prefixes: bool,
    prefix_switch_point: u32,
) -> (look: SlotLook)
    requires
        amount_format_ok(use_prefixes, prefix_switch_point),
    ensures
        ({
            let dragged = interaction == Interaction::Dragging;
            let shown = has_content && !dragged;
            &&& look.frame == if interaction == Interaction::Selected {
                SlotFrame::Selected
            } else if shown {
                SlotFrame::Filled
            } else {
                SlotFrame::Empty
            }
            &&& look.icon == (has_icon && !shown)
            &&& look.content == if !shown {
                None
            } else if interaction == Interaction::Selected {
                Some(ContentScale::Selected)
            } else {
                Some(ContentScale::Normal)
            }
            &&& look.hover_highlight == (hover || menu_hover)
            &&& look.drag_ghost == (dragged && has_manager && has_content)
            &&& look.amount.is_some() == (!dragged && amount.is_some())
            &&& (look.amount matches Some(t) ==> t@ == amount_text(
                amount->0,
                use_prefixes,
                prefix_switch_point,
            ))
            &&& look.pointer == (hover && has_manager)
        }),
{
    let dragged = match interaction {
        Interaction::Dragging => true,
        _ => false,
    };
    let selected = match interaction {
        Interaction::Selected => true,
        _ => false,
    };
    let shown = has_content && !dragged;
    let frame = if selected {
        SlotFrame::Selected
    } else if shown {
        SlotFrame::Filled
    } else {
        SlotFrame::Empty
    };
    let content = if !shown {
        None
    } else if selected {
        Some(ContentScale::Selected)
    } else {
        Some(ContentScale::Normal)
    };
    let amount_label = match amount {
        Some(a) => if !dragged {
            Some(format_amount(a, use_prefixes, prefix_switch_point))
        } else {
            None
        },
        None => None,
    };
    SlotLook {
        frame,
        icon: has_icon && !shown,
        content,
        hover_highlight: hover || menu_hover,
        drag_ghost: dragged && has_manager && has_content,
        amount: amount_label,
        pointer: hover && has_manager,
    }
}

/// Whether a slot's cached content images must be resolved again: the
/// content key changed, appeared or disappeared.
pub fn cached_key_changed<K: PartialEq>(cached: Option<&K>, new: Option<&K>) -> (changed: bool)
    requires
        crate::drag::slot_eq_is_equality::<K>(),
    ensures
        changed == match (cached, new) {
            (Some(c), Some(n)) => *c != *n,
            (None, None) => false,
            _ => true,
        },
{
    match (cached, new) {
        (Some(c), Some(n)) => !(*c == *n),
        (None, None) => false,
        _ => true,
    }
}

} // verus!
