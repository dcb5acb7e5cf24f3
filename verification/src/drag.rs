//! Drag-and-drop state shared by item slots.
//!
//! The manager is owned by the UI layer, shared with every item slot and
//! driven by the events the slots report: clicks, drag starts, releases and
//! right clicks. It decides selection, swapping, dropping and stack splitting
//! and queues the resulting [`Event`]s until the game takes them.
//!
//! Screen positions are whole pixels: a cursor position is truncated towards
//! zero before it reaches the manager, and slot bounds are integer boxes.
use vstd::prelude::*;
use vstd::std_specs::cmp::PartialEqSpec;

verus! {

/// A point in whole screen pixels (top-left origin).
#[derive(Debug, Clone, Copy, PartialEq, Eq, Structural)]
pub struct Vec2i {
    pub x: i32,
    pub y: i32,
}

/// An axis-aligned box in whole screen pixels: `min` is inclusive, `max`
/// exclusive.
#[derive(Debug, Clone, Copy, Eq)]
pub struct Aabr {
    pub min: Vec2i,
    pub max: Vec2i,
}

impl PartialEq for Aabr {
    fn eq(&self, other: &Self) -> (r: bool) {
        self.min.x == other.min.x && self.min.y == other.min.y && self.max.x == other.max.x
            && self.max.y == other.max.y
    }
}

impl vstd::std_specs::cmp::PartialEqSpecImpl for Aabr {
    open spec fn obeys_eq_spec() -> bool {
        true
    }

    open spec fn eq_spec(&self, other: &Self) -> bool {
        self.min.x == other.min.x && self.min.y == other.min.y && self.max.x == other.max.x
            && self.max.y == other.max.y
    }
}

/// Keyboard modifiers held during a click.
#[derive(Debug, Clone, Copy, PartialEq, Eq, Default, Structural)]
pub struct Modifiers {
    pub shift: bool,
    pub control: bool,
    pub alt: bool,
    pub logo: bool,
}

/// Events produced by the drag manager.
#[derive(Debug, Clone, Copy, PartialEq)]
pub enum Event<S> {
    /// Dragged from one slot onto another.
    Dragged(S, S),
    /// Dragged to open space (dropped on the ground/window).
    Dropped(S),
    /// Right-clicked while dragging half a stack over open space.
    SplitDropped(S),
    /// Right-clicked while dragging half a stack onto another slot.
    SplitDragged(S, S),
    /// Right-clicked a slot while not dragging (use item).
    Used(S),
    /// {Ctrl,Shift}-clicked a slot (move stack / move single item).
    Request { slot: S, auto_quantity: bool },
}

/// How a slot should render as a result of manager state.
#[derive(Debug, Clone, Copy, PartialEq, Eq)]
pub enum Interaction {
    Selected,
    Dragging,
    Nothing,
}

/// What the manager is doing: dragging a slot (with the dragged amount),
/// holding a selected slot, or nothing.
#[derive(Debug, Clone, Copy, PartialEq)]
pub enum ManagerState<S> {
    Dragging(S, Option<u32>),
    Selected(S),
    Idle,
}

/// Whether `==` on slots means equality of the slot values.
pub open spec fn slot_eq_is_equality<S: PartialEq>() -> bool {
    &&& S::obeys_eq_spec()
    &&& forall|a: S, b: S| #[trigger] a.eq_spec(&b) <==> (a == b)
}

/// Whether the whole-pixel `point` lies in `bounds`.
pub open spec fn spec_contains(bounds: Aabr, point: Vec2i) -> bool {
    &&& bounds.min.x <= point.x < bounds.max.x
    &&& bounds.min.y <= point.y < bounds.max.y
}

/// Index of the first registry entry at or after `i` that holds `slot`, or
/// `-1` when there is none.
pub open spec fn key_index_from<S>(slots: Seq<(S, Aabr)>, slot: S, i: int) -> int
    decreases slots.len() - i,
{
    if i < 0 || i >= slots.len() {
        -1
    } else if slots[i].0 == slot {
        i
    } else {
        key_index_from(slots, slot, i + 1)
    }
}

/// The first registered slot at or after `i` whose bounds contain `point`.
pub open spec fn slot_at_from<S>(slots: Seq<(S, Aabr)>, point: Vec2i, i: int) -> Option<S>
    decreases slots.len() - i,
{
    if i < 0 || i >= slots.len() {
        None
    } else if spec_contains(slots[i].1, point) {
        Some(slots[i].0)
    } else {
        slot_at_from(slots, point, i + 1)
    }
}

/// The first registered slot whose bounds contain `point` (the drop target).
pub open spec fn slot_at<S>(slots: Seq<(S, Aabr)>, point: Vec2i) -> Option<S> {
    slot_at_from(slots, point, 0)
}

/// The registry after registering `slot` with `bounds`: an existing entry for
/// the slot gets the new bounds, otherwise the slot is appended.
pub open spec fn registered<S>(slots: Seq<(S, Aabr)>, slot: S, bounds: Aabr) -> Seq<(S, Aabr)> {
    let k = key_index_from(slots, slot, 0);
    if k >= 0 {
        slots.update(k, (slot, bounds))
    } else {
        slots.push((slot, bounds))
    }
}

/// No slot appears twice in the registry.
pub open spec fn keys_unique<S>(slots: Seq<(S, Aabr)>) -> bool {
    forall|i: int, j: int| 0 <= i < j < slots.len() ==> slots[i].0 != slots[j].0
}

/// The abstract state of a [`DragManager`].
#[verifier::ext_equal]
pub struct DragView<S> {
    pub state: ManagerState<S>,
    pub slots: Seq<(S, Aabr)>,
    pub events: Seq<Event<S>>,
    pub mouse_over_slot: Option<S>,
    pub use_prefixes: bool,
    pub prefix_switch_point: u32,
}

impl<S> DragView<S> {
    pub open spec fn with_state(self, state: ManagerState<S>) -> Self {
        DragView { state, ..self }
    }

    pub open spec fn emit(self, event: Event<S>) -> Self {
        DragView { events: self.events.push(event), ..self }
    }

    pub open spec fn is_dragging(self) -> bool {
        self.state is Dragging
    }

    /// The slot that is selected, if any.
    pub open spec fn selected(self) -> Option<S> {
        match self.state {
            ManagerState::Selected(s) => Some(s),
            _ => None,
        }
    }

    /// The dragged slot and amount, if dragging.
    pub open spec fn dragging(self) -> Option<(S, Option<u32>)> {
        match self.state {
            ManagerState::Dragging(s, a) => Some((s, a)),
            _ => None,
        }
    }

    /// How the slot `slot` renders.
    pub open spec fn interaction(self, slot: S) -> Interaction {
        match self.state {
            ManagerState::Selected(s) => if s == slot {
                Interaction::Selected
            } else {
                Interaction::Nothing
            },
            ManagerState::Dragging(s, _) => if s == slot {
                Interaction::Dragging
            } else {
                Interaction::Nothing
            },
            ManagerState::Idle => Interaction::Nothing,
        }
    }

    /// The manager after a slot registration at the given cursor.
    pub open spec fn after_register(self, slot: S, bounds: Aabr, cursor: Vec2i) -> Self {
        DragView {
            slots: registered(self.slots, slot, bounds),
            mouse_over_slot: if spec_contains(bounds, cursor) {
                Some(slot)
            } else {
                self.mouse_over_slot
            },
            ..self
        }
    }

    /// The manager after the content of `slot` changed.
    pub open spec fn after_slot_changed(self, slot: S, filled: bool) -> Self {
        if !filled {
            match self.state {
                ManagerState::Selected(s) => if s == slot {
                    self.with_state(ManagerState::Idle)
                } else {
                    self
                },
                ManagerState::Dragging(s, _) => if s == slot {
                    self.with_state(ManagerState::Idle)
                } else {
                    self
                },
                ManagerState::Idle => self,
            }
        } else {
            self
        }
    }

    /// The manager after a left click on `slot`.
    pub open spec fn after_click(self, slot: S, filled: bool, click_count: u32, modifiers: Modifiers) -> Self {
        if click_count > 0 && !self.is_dragging() && modifiers.control {
            self.emit(Event::Request { slot, auto_quantity: true }).with_state(ManagerState::Idle)
        } else if click_count > 0 && !self.is_dragging() && modifiers.shift {
            self.emit(Event::Request { slot, auto_quantity: false }).with_state(ManagerState::Idle)
        } else if click_count > 0 {
            match self.state {
                ManagerState::Selected(other) => {
                    let emitted = if slot != other {
                        self.emit(Event::Dragged(other, slot))
                    } else {
                        self
                    };
                    if click_count == 1 {
                        emitted.with_state(ManagerState::Idle)
                    } else {
                        emitted.with_state(ManagerState::Selected(slot))
                    }
                },
                _ => if filled {
                    self.with_state(ManagerState::Selected(slot))
                } else {
                    self.with_state(ManagerState::Idle)
                },
            }
        } else {
            self
        }
    }

    /// The manager after starting to drag `slot`.
    pub open spec fn after_drag_start(self, slot: S, amount: Option<u32>) -> Self {
        if self.is_dragging() {
            self
        } else {
            self.with_state(ManagerState::Dragging(slot, amount))
        }
    }

    /// The manager after the left button is released at `cursor`.
    pub open spec fn after_release(self, cursor: Vec2i) -> Self {
        match self.state {
            ManagerState::Dragging(from, _) => {
                let emitted = match slot_at(self.slots, cursor) {
                    Some(to) => if to != from {
                        self.emit(Event::Dragged(from, to))
                    } else {
                        self.emit(Event::Dropped(from))
                    },
                    None => self.emit(Event::Dropped(from)),
                };
                emitted.with_state(ManagerState::Idle)
            },
            _ => self,
        }
    }

    /// The manager after a right click on `slot` with the cursor at `cursor`.
    pub open spec fn after_right_click(self, slot: S, cursor: Vec2i) -> Self {
        match self.state {
            ManagerState::Dragging(from, amount) => match amount {
                Some(_) => match slot_at(self.slots, cursor) {
                    Some(to) => if to != from {
                        self.emit(Event::SplitDragged(from, to))
                    } else {
                        self.emit(Event::SplitDropped(from))
                    },
                    None => self.emit(Event::SplitDropped(from)),
                },
                None => self,
            },
            _ => self.emit(Event::Used(slot)).with_state(ManagerState::Idle),
        }
    }

    /// The manager after using the selected slot.
    pub open spec fn after_use_selected(self) -> Self {
        match self.state {
            ManagerState::Selected(s) => self.emit(Event::Used(s)).with_state(ManagerState::Idle),
            _ => self,
        }
    }

    /// The manager after dropping the selected slot.
    pub open spec fn after_drop_selected(self) -> Self {
        match self.state {
            ManagerState::Selected(s) => self.emit(Event::Dropped(s)).with_state(ManagerState::Idle),
            _ => self,
        }
    }
}

/// Whether `point` lies in `bounds` (`min` inclusive, `max` exclusive).
pub fn bounds_contains(bounds: Aabr, point: Vec2i) -> (r: bool)
    ensures
        r == spec_contains(bounds, point),
{
    point.x >= bounds.min.x && point.x < bounds.max.x && point.y >= bounds.min.y && point.y
        < bounds.max.y
}

fn slots_equal<S: PartialEq>(a: &S, b: &S) -> (r: bool)
    requires
        slot_eq_is_equality::<S>(),
    ensures
        r == (*a == *b),
{
    *a == *b
}

/// Index of the registry entry holding `slot`.
fn key_index<S: PartialEq + Copy>(slots: &Vec<(S, Aabr)>, slot: S) -> (r: Option<usize>)
    requires
        slot_eq_is_equality::<S>(),
    ensures
        match r {
            Some(k) => k < slots@.len() && key_index_from(slots@, slot, 0) == k as int,
            None => key_index_from(slots@, slot, 0) == -1,
        },
{
    let n = slots.len();
    let mut i: usize = 0;
    while i < n
        invariant
            n == slots@.len(),
            i <= n,
            slot_eq_is_equality::<S>(),
            key_index_from(slots@, slot, 0) == key_index_from(slots@, slot, i as int),
        decreases n - i,
    {
        let entry = slots[i];
        if slots_equal(&entry.0, &slot) {
            return Some(i);
        }
        i = i + 1;
    }
    None
}

/// The first registered slot whose bounds contain `point`.
fn find_slot_at<S: Copy>(slots: &Vec<(S, Aabr)>, point: Vec2i) -> (r: Option<S>)
    ensures
        r == slot_at(slots@, point),
{
    let n = slots.len();
    let mut i: usize = 0;
    while i < n
        invariant
            n == slots@.len(),
            i <= n,
            slot_at(slots@, point) == slot_at_from(slots@, point, i as int),
        decreases n - i,
    {
        let entry = slots[i];
        if bounds_contains(entry.1, point) {
            return Some(entry.0);
        }
        i = i + 1;
    }
    None
}

/// Manages selection, dragging and dropping between slots.
pub struct DragManager<S> {
    state: ManagerState<S>,
    // Rebuilt every frame via `begin_frame` + `register_slot`.
    slots: Vec<(S, Aabr)>,
    events: Vec<Event<S>>,
    mouse_over_slot: Option<S>,
    // Si prefix settings.
    use_prefixes: bool,
    prefix_switch_point: u32,
}

impl<S> View for DragManager<S> {
    type V = DragView<S>;

    closed spec fn view(&self) -> DragView<S> {
        DragView {
            state: self.state,
            slots: self.slots@,
            events: self.events@,
            mouse_over_slot: self.mouse_over_slot,
            use_prefixes: self.use_prefixes,
            prefix_switch_point: self.prefix_switch_point,
        }
    }
}

impl<S: PartialEq + Copy> DragManager<S> {
    /// An idle manager with no registered slots and no pending events.
    pub fn new(use_prefixes: bool, prefix_switch_point: u32) -> (m: Self)
        ensures
            m@ == (DragView::<S> {
                state: ManagerState::Idle,
                slots: Seq::empty(),
                events: Seq::empty(),
                mouse_over_slot: None,
                use_prefixes,
                prefix_switch_point,
            }),
    {
        DragManager {
            state: ManagerState::Idle,
            slots: Vec::new(),
            events: Vec::new(),
            mouse_over_slot: None,
            use_prefixes,
            prefix_switch_point,
        }
    }

    pub fn set_use_prefixes(&mut self, use_prefixes: bool)
        ensures
            final(self)@ == (DragView { use_prefixes, ..old(self)@ }),
    {
        self.use_prefixes = use_prefixes;
    }

    pub fn set_prefix_switch_point(&mut self, prefix_switch_point: u32)
        ensures
            final(self)@ == (DragView { prefix_switch_point, ..old(self)@ }),
    {
        self.prefix_switch_point = prefix_switch_point;
    }

    /// Whether the amount text should use SI prefixes.
    pub fn use_prefixes(&self) -> (r: bool)
        ensures
            r == self@.use_prefixes,
    {
        self.use_prefixes
    }

    pub fn prefix_switch_point(&self) -> (r: u32)
        ensures
            r == self@.prefix_switch_point,
    {
        self.prefix_switch_point
    }

    /// Clears the per-frame slot registry; call before building the UI.
    pub fn begin_frame(&mut self)
        ensures
            final(self)@ == (DragView {
                slots: Seq::empty(),
                mouse_over_slot: None,
                ..old(self)@
            }),
    {
        self.slots.clear();
        self.mouse_over_slot = None;
    }

    /// Registers a slot with its bounds so hover and drop targets can be
    /// resolved; `cursor` updates the slot under the mouse.
    pub fn register_slot(&mut self, slot: S, bounds: Aabr, cursor: Vec2i)
        requires
            slot_eq_is_equality::<S>(),
        ensures
            final(self)@ == old(self)@.after_register(slot, bounds, cursor),
    {
        match key_index(&self.slots, slot) {
            Some(k) => {
                self.slots.set(k, (slot, bounds));
            },
            None => {
                self.slots.push((slot, bounds));
            },
        }
        if bounds_contains(bounds, cursor) {
            self.mouse_over_slot = Some(slot);
        }
    }

    /// The slot currently under the mouse cursor (per the last registration).
    pub fn mouse_over_slot(&self) -> (r: Option<S>)
        ensures
            r == self@.mouse_over_slot,
    {
        self.mouse_over_slot
    }

    /// Returns `Some(slot)` if a slot is selected.
    pub fn selected(&self) -> (r: Option<S>)
        ensures
            r == self@.selected(),
    {
        match self.state {
            ManagerState::Selected(slot) => Some(slot),
            _ => None,
        }
    }

    /// Returns the source slot (and dragged stack amount) while dragging.
    pub fn dragging(&self) -> (r: Option<(S, Option<u32>)>)
        ensures
            r == self@.dragging(),
    {
        match self.state {
            ManagerState::Dragging(slot, amount) => Some((slot, amount)),
            _ => None,
        }
    }

    /// The interaction state for rendering a given slot.
    pub fn interaction(&self, slot: S) -> (r: Interaction)
        requires
            slot_eq_is_equality::<S>(),
        ensures
            r == self@.interaction(slot),
    {
        match self.state {
            ManagerState::Selected(s) => if slots_equal(&s, &slot) {
                Interaction::Selected
            } else {
                Interaction::Nothing
            },
            ManagerState::Dragging(s, _) => if slots_equal(&s, &slot) {
                Interaction::Dragging
            } else {
                Interaction::Nothing
            },
            ManagerState::Idle => Interaction::Nothing,
        }
    }

    /// Emits a `Used` event and deselects the selected slot.
    pub fn use_selected(&mut self)
        ensures
            final(self)@ == old(self)@.after_use_selected(),
    {
        if let ManagerState::Selected(slot) = self.state {
            self.events.push(Event::Used(slot));
            self.state = ManagerState::Idle;
        }
    }

    /// Emits a `Dropped` event and deselects the selected slot.
    pub fn dropped_selected(&mut self)
        ensures
            final(self)@ == old(self)@.after_drop_selected(),
    {
        if let ManagerState::Selected(slot) = self.state {
            self.events.push(Event::Dropped(slot));
            self.state = ManagerState::Idle;
        }
    }

    /// Selects a specific slot; if it has no content it is deselected on the
    /// next `on_slot_changed` call.
    pub fn select(&mut self, slot: S)
        ensures
            final(self)@ == old(self)@.with_state(ManagerState::Selected(slot)),
    {
        self.state = ManagerState::Selected(slot);
    }

    /// Sets the manager into an idle state.
    pub fn idle(&mut self)
        ensures
            final(self)@ == old(self)@.with_state(ManagerState::Idle),
    {
        self.state = ManagerState::Idle;
    }

    /// Called when a slot's content changes; cancels selection/dragging of
    /// slots that became empty.
    pub fn on_slot_changed(&mut self, slot: S, filled: bool)
        requires
            slot_eq_is_equality::<S>(),
        ensures
            final(self)@ == old(self)@.after_slot_changed(slot, filled),
            final(self)@.slots == old(self)@.slots,
            final(self)@.events == old(self)@.events,
            !holds_slot(old(self)@.state, slot) ==> final(self)@.state == old(self)@.state,
            filled ==> final(self)@.state == old(self)@.state,
            !filled && holds_slot(old(self)@.state, slot) ==> final(self)@.state is Idle,
    {
        if !filled {
            match self.state {
                ManagerState::Selected(s) => {
                    if slots_equal(&s, &slot) {
                        self.state = ManagerState::Idle;
                    }
                },
                ManagerState::Dragging(s, a) => {
                    if slots_equal(&s, &slot) {
                        proof {
                            assert(self.state == ManagerState::Dragging(slot, a));
                        }
                        self.state = ManagerState::Idle;
                    }
                },
                ManagerState::Idle => {},
            }
        }
    }

    /// Left click on a slot: ctrl- and shift-clicks request moving a stack or
    /// a single item; otherwise a click selects a filled slot, and a click on
    /// another slot while one is selected swaps the two.
    pub fn on_click(&mut self, slot: S, filled: bool, click_count: u32, modifiers: Modifiers)
        requires
            slot_eq_is_equality::<S>(),
        ensures
            final(self)@ == old(self)@.after_click(slot, filled, click_count, modifiers),
    {
        let dragging = match self.state {
            ManagerState::Dragging(_, _) => true,
            _ => false,
        };
        if click_count > 0 && !dragging {
            if modifiers.control {
                self.events.push(Event::Request { slot, auto_quantity: true });
                self.state = ManagerState::Idle;
                return ;
            } else if modifiers.shift {
                self.events.push(Event::Request { slot, auto_quantity: false });
                self.state = ManagerState::Idle;
                return ;
            }
        }
        if click_count > 0 {
            match self.state {
                ManagerState::Selected(other) => {
                    if !slots_equal(&slot, &other) {
                        self.events.push(Event::Dragged(other, slot));
                    }
                    if click_count == 1 {
                        // Clicked widget was already selected; deselect.
                        self.state = ManagerState::Idle;
                    } else {
                        self.state = ManagerState::Selected(slot);
                    }
                },
                _ => {
                    if filled {
                        self.state = ManagerState::Selected(slot);
                    } else {
                        self.state = ManagerState::Idle;
                    }
                },
            }
        }
    }

    /// Starts dragging the contents of a slot.
    pub fn on_drag_start(&mut self, slot: S, amount: Option<u32>)
        ensures
            final(self)@ == old(self)@.after_drag_start(slot, amount),
    {
        match self.state {
            ManagerState::Dragging(_, _) => {},
            _ => {
                self.state = ManagerState::Dragging(slot, amount);
            },
        }
    }

    /// Left-button release while dragging; resolves the drop target from the
    /// registered slot bounds.
    pub fn on_release(&mut self, cursor: Vec2i)
        requires
            slot_eq_is_equality::<S>(),
        ensures
            final(self)@ == old(self)@.after_release(cursor),
    {
        if let ManagerState::Dragging(from, _) = self.state {
            match find_slot_at(&self.slots, cursor) {
                Some(to) => {
                    if !slots_equal(&to, &from) {
                        self.events.push(Event::Dragged(from, to));
                    } else {
                        self.events.push(Event::Dropped(from));
                    }
                },
                None => {
                    self.events.push(Event::Dropped(from));
                },
            }
            self.state = ManagerState::Idle;
        }
    }

    /// Right click: while dragging a partial stack this splits the stack;
    /// otherwise it emits a `Used` event for the clicked slot.
    pub fn on_right_click(&mut self, slot: S, cursor: Vec2i)
        requires
            slot_eq_is_equality::<S>(),
        ensures
            final(self)@ == old(self)@.after_right_click(slot, cursor),
    {
        match self.state {
            ManagerState::Dragging(from, amount) => {
                if amount.is_some() {
                    match find_slot_at(&self.slots, cursor) {
                        Some(to) => {
                            if !slots_equal(&to, &from) {
                                self.events.push(Event::SplitDragged(from, to));
                            } else {
                                self.events.push(Event::SplitDropped(from));
                            }
                        },
                        None => {
                            self.events.push(Event::SplitDropped(from));
                        },
                    }
                }
            },
            _ => {
                self.events.push(Event::Used(slot));
                // If something is selected, deselect.
                self.state = ManagerState::Idle;
            },
        }
    }

    /// Takes the events accumulated since the last call.
    pub fn take_events(&mut self) -> (events: Vec<Event<S>>)
        ensures
            events@ == old(self)@.events,
            final(self)@ == (DragView { events: Seq::empty(), ..old(self)@ }),
    {
        let mut events = Vec::new();
        core::mem::swap(&mut events, &mut self.events);
        events
    }
}

/// Where the search for `slot` from position `i` ends: at the first entry that
/// holds it, or nowhere when no entry from `i` on holds it.
pub proof fn lemma_key_index_from<S>(slots: Seq<(S, Aabr)>, slot: S, i: int)
    requires
        0 <= i,
    ensures
        key_index_from(slots, slot, i) == -1 ==> forall|j: int|
            i <= j < slots.len() ==> slots[j].0 != slot,
        key_index_from(slots, slot, i) != -1 ==> {
            let k = key_index_from(slots, slot, i);
            &&& i <= k < slots.len()
            &&& slots[k].0 == slot
            &&& forall|j: int| i <= j < k ==> slots[j].0 != slot
        },
    decreases slots.len() - i,
{
    if i < slots.len() && slots[i].0 != slot {
        lemma_key_index_from(slots, slot, i + 1);
    }
}

/// Registering a slot never lists it twice: a registry without duplicates
/// stays without duplicates, holds the slot with its new bounds, and grows by
/// one entry exactly when the slot was not registered before.
pub proof fn lemma_register_keeps_slots_unique<S>(slots: Seq<(S, Aabr)>, slot: S, bounds: Aabr)
    requires
        keys_unique(slots),
    ensures
        keys_unique(registered(slots, slot, bounds)),
        registered(slots, slot, bounds).contains((slot, bounds)),
        registered(slots, slot, bounds).len() == if (exists|j: int|
            0 <= j < slots.len() && slots[j].0 == slot) {
            slots.len()
        } else {
            slots.len() + 1
        },
{
    lemma_key_index_from(slots, slot, 0);
    let r = registered(slots, slot, bounds);
    let k = key_index_from(slots, slot, 0);
    if k >= 0 {
        assert(r[k] == (slot, bounds));
    } else {
        assert(r[slots.len() as int] == (slot, bounds));
    }
}

/// A slot renders as selected exactly when it is the selected slot, and as
/// dragged exactly when it is the dragged slot.
pub proof fn lemma_interaction_follows_state<S>(v: DragView<S>, slot: S)
    ensures
        (v.interaction(slot) == Interaction::Selected) <==> (v.selected() == Some(slot)),
        (v.interaction(slot) == Interaction::Dragging) <==> (v.dragging() is Some
            && (v.dragging()->0).0 == slot),
{
}

/// Whether the manager's state is about `slot`: it is the selected or the
/// dragged slot.
pub open spec fn holds_slot<S>(state: ManagerState<S>, slot: S) -> bool {
    ||| state == ManagerState::Selected(slot)
    ||| exists|a: Option<u32>| state == ManagerState::Dragging(slot, a)
}

/// A content change touches only the slot it is about: when another slot
/// changes, or a slot gets filled, the manager stays exactly as it was;
/// when the selected or dragged slot becomes empty, the manager goes idle
/// and keeps everything else.
pub proof fn lemma_slot_change_touches_only_its_slot<S>(v: DragView<S>, slot: S, filled: bool)
    ensures
        !holds_slot(v.state, slot) ==> v.after_slot_changed(slot, filled) == v,
        filled ==> v.after_slot_changed(slot, filled) == v,
        !filled && holds_slot(v.state, slot) ==> v.after_slot_changed(slot, filled) == (DragView {
            state: ManagerState::Idle,
            ..v
        }),
{
    if !filled && holds_slot(v.state, slot) {
        if let ManagerState::Dragging(s, a) = v.state {
            assert(s == slot);
        }
    }
}

/// A slot that became empty is neither selected nor dragged afterwards.
pub proof fn lemma_emptied_slot_is_released<S>(v: DragView<S>, slot: S)
    ensures
        v.after_slot_changed(slot, false).interaction(slot) == Interaction::Nothing,
        v.after_slot_changed(slot, true) == v,
{
}

/// Releasing the mouse ends every drag with exactly one event: `Dragged` onto
/// the first registered slot under the cursor when that is another slot,
/// `Dropped` otherwise; a release while not dragging changes nothing.
pub proof fn lemma_release_ends_drag<S>(v: DragView<S>, cursor: Vec2i)
    ensures
        !v.after_release(cursor).is_dragging(),
        !v.is_dragging() ==> v.after_release(cursor) == v,
        v.dragging() matches Some((from, _)) ==> {
            &&& v.after_release(cursor).state == ManagerState::<S>::Idle
            &&& v.after_release(cursor).events == v.events.push(
                match slot_at(v.slots, cursor) {
                    Some(to) => if to != from {
                        Event::Dragged(from, to)
                    } else {
                        Event::Dropped(from)
                    },
                    None => Event::Dropped(from),
                },
            )
        },
{
}

/// A ctrl- or shift-click with at least one click while not dragging emits
/// exactly one request (a whole stack for ctrl, a single item for shift) and
/// leaves nothing selected.
pub proof fn lemma_modifier_click_requests<S>(
    v: DragView<S>,
    slot: S,
    filled: bool,
    click_count: u32,
    modifiers: Modifiers,
)
    requires
        click_count > 0,
        !v.is_dragging(),
        modifiers.control || modifiers.shift,
    ensures
        v.after_click(slot, filled, click_count, modifiers).state == ManagerState::<S>::Idle,
        v.after_click(slot, filled, click_count, modifiers).events == v.events.push(
            Event::Request { slot, auto_quantity: modifiers.control },
        ),
{
}

/// Clicking another slot while one is selected swaps the two: a single click
/// then deselects, a repeated click selects the clicked slot.
pub proof fn lemma_click_other_swaps<S>(
    v: DragView<S>,
    other: S,
    slot: S,
    filled: bool,
    click_count: u32,
    modifiers: Modifiers,
)
    requires
        v.selected() == Some(other),
        other != slot,
        click_count > 0,
        !modifiers.control,
        !modifiers.shift,
    ensures
        v.after_click(slot, filled, click_count, modifiers).events == v.events.push(
            Event::Dragged(other, slot),
        ),
        v.after_click(slot, filled, click_count, modifiers).selected() == if click_count == 1 {
            None
        } else {
            Some(slot)
        },
{
}

/// Right-clicking while dragging a partial stack splits it off and keeps the
/// drag going; while dragging a whole stack a right click does nothing.
pub proof fn lemma_split_keeps_dragging<S>(v: DragView<S>, slot: S, cursor: Vec2i)
    requires
        v.is_dragging(),
    ensures
        v.after_right_click(slot, cursor).state == v.state,
        (v.dragging()->0).1 is None ==> v.after_right_click(slot, cursor) == v,
        (v.dragging()->0).1 is Some ==> v.after_right_click(slot, cursor).events.len()
            == v.events.len() + 1,
{
}

/// No operation but `take_events` removes or reorders pending events: each
/// appends at most one event, and none changes the prefix settings.
pub proof fn lemma_events_only_grow<S>(
    v: DragView<S>,
    slot: S,
    bounds: Aabr,
    cursor: Vec2i,
    filled: bool,
    click_count: u32,
    modifiers: Modifiers,
    amount: Option<u32>,
)
    ensures
        grows_by_at_most_one(v, v.after_register(slot, bounds, cursor)),
        grows_by_at_most_one(v, v.after_slot_changed(slot, filled)),
        grows_by_at_most_one(v, v.after_click(slot, filled, click_count, modifiers)),
        grows_by_at_most_one(v, v.after_drag_start(slot, amount)),
        grows_by_at_most_one(v, v.after_release(cursor)),
        grows_by_at_most_one(v, v.after_right_click(slot, cursor)),
        grows_by_at_most_one(v, v.after_use_selected()),
        grows_by_at_most_one(v, v.after_drop_selected()),
{
    let n = v.events.len() as int;
    assert(v.events.subrange(0, n) =~= v.events);
    assert forall|e: Event<S>| #[trigger] v.events.push(e).subrange(0, n) =~= v.events by {}
}

/// `after` keeps the events of `before` as a prefix, adds at most one, and
/// keeps the prefix settings.
pub open spec fn grows_by_at_most_one<S>(before: DragView<S>, after: DragView<S>) -> bool {
    &&& before.events.len() <= after.events.len() <= before.events.len() + 1
    &&& after.events.subrange(0, before.events.len() as int) == before.events
    &&& after.use_prefixes == before.use_prefixes
    &&& after.prefix_switch_point == before.prefix_switch_point
}


/// Plain clicks and drags: with no modifier held, a click on a filled slot
/// while nothing is selected selects it, a click on an empty slot selects
/// nothing, and a single click on the selected slot deselects it, all
/// without events; a zero click count changes nothing. A drag starts from
/// any state but a drag, which it leaves alone. A right click while not
/// dragging uses the clicked slot and leaves nothing selected.
pub proof fn lemma_plain_clicks_and_drags<S>(
    v: DragView<S>,
    slot: S,
    filled: bool,
    click_count: u32,
    amount: Option<u32>,
    cursor: Vec2i,
)
    ensures
        v.state is Idle && click_count > 0 && filled ==> v.after_click(
            slot,
            filled,
            click_count,
            Modifiers { shift: false, control: false, alt: false, logo: false },
        ) == v.with_state(ManagerState::Selected(slot)),
        v.state is Idle && click_count > 0 && !filled ==> v.after_click(
            slot,
            filled,
            click_count,
            Modifiers { shift: false, control: false, alt: false, logo: false },
        ) == v,
        v.state == ManagerState::Selected(slot) ==> v.after_click(
            slot,
            filled,
            1,
            Modifiers { shift: false, control: false, alt: false, logo: false },
        ) == v.with_state(ManagerState::Idle),
        forall|m: Modifiers| v.after_click(slot, filled, 0, m) == v,
        !(v.state is Dragging) ==> v.after_drag_start(slot, amount) == v.with_state(
            ManagerState::Dragging(slot, amount),
        ),
        v.state is Dragging ==> v.after_drag_start(slot, amount) == v,
        !(v.state is Dragging) ==> v.after_right_click(slot, cursor) == (DragView {
            state: ManagerState::Idle,
            events: v.events.push(Event::Used(slot)),
            ..v
        }),
{
}

/// Comparing boxes with `==` compares their corners.
pub proof fn lemma_aabr_eq_is_equality()
    ensures
        slot_eq_is_equality::<Aabr>(),
{
}

/// Comparing small integer slot ids with `==` compares their values.
pub proof fn lemma_u8_eq_is_equality()
    ensures
        slot_eq_is_equality::<u8>(),
{
}

} // verus!
