//! The decisions of the painted box every interactive widget is built on: which state's paint wins, what a key handler's answer means, and whether a box wants anything from the pointer at all.

use vstd::prelude::*;

verus! {

/// What a key handler answers, which is either nothing at all or whether it took the key.
///
/// A table of the application's keys answers `()`: it acts on the ones it knows and lets every key through. A binding on a key the runtime also uses has to be able to end it, and answers whether it took the key.
pub trait KeyAnswer {
    /// Whether the handler took the key, leaving nothing for anyone else.
    fn took(self) -> bool;
}

impl KeyAnswer for () {
    fn took(self) -> (r: bool)
        ensures
            !r,
    {
        false
    }
}

impl KeyAnswer for bool {
    fn took(self) -> (r: bool)
        ensures
            r == self,
    {
        self
    }
}

/// One of the box's paint states. See [`PAINT_STATES`] for the order they resolve in.
#[derive(Clone, Copy, Debug, PartialEq, Eq, Structural)]
pub enum PaintState {
    /// A control that cannot be used must not also look pressable, so this is ahead of every other state.
    Disabled,
    /// A primary pointer held down inside the box.
    Active,
    /// Mouse only, like the hover callback.
    Hover,
}

/// The states a box paints differently in, **in precedence order**: the first one engaged wins.
pub const PAINT_STATES: [PaintState; 3] = [PaintState::Disabled, PaintState::Active, PaintState::Hover];

/// One flag per paint state.
#[derive(Clone, Copy, Debug, PartialEq, Eq, Structural)]
pub struct StateFlags {
    pub disabled: bool,
    pub active: bool,
    pub hover: bool,
}

/// The flag `flags` holds for `state`.
pub open spec fn flag_of(flags: StateFlags, state: PaintState) -> bool {
    match state {
        PaintState::Disabled => flags.disabled,
        PaintState::Active => flags.active,
        PaintState::Hover => flags.hover,
    }
}

fn flag(flags: StateFlags, state: PaintState) -> (r: bool)
    ensures
        r == flag_of(flags, state),
{
    match state {
        PaintState::Disabled => flags.disabled,
        PaintState::Active => flags.active,
        PaintState::Hover => flags.hover,
    }
}

/// The paint states in precedence order, as mathematics.
pub open spec fn precedence() -> Seq<PaintState> {
    seq![PaintState::Disabled, PaintState::Active, PaintState::Hover]
}

/// The first of `states` that has a paint in `styled` and is engaged in `engaged`.
pub open spec fn first_painted(states: Seq<PaintState>, styled: StateFlags, engaged: StateFlags) -> Option<PaintState>
    decreases states.len(),
{
    if states.len() == 0 {
        None
    } else if flag_of(styled, states[0]) && flag_of(engaged, states[0]) {
        Some(states[0])
    } else {
        first_painted(states.drop_first(), styled, engaged)
    }
}

/// The state whose paint the box draws with, given which states have a paint (`styled`) and which are engaged right now (`engaged`): the first in [`PAINT_STATES`] with both, or `None` for the box's own paint.
///
/// A state with no paint is never asked whether it is engaged: a caller reading engagement from a signal reads it only for the states `styled` holds, so a box with no hover paint does not re-render on every pointer move.
pub fn resolve_paint_state(styled: StateFlags, engaged: StateFlags) -> (r: Option<PaintState>)
    ensures
        r == first_painted(precedence(), styled, engaged),
{
    let states = PAINT_STATES;
    proof {
        assert(states@ == precedence());
        reveal_with_fuel(first_painted, 4);
    }
    let mut i: usize = 0;
    while i < 3
        invariant
            i <= 3,
            states@ == precedence(),
            first_painted(precedence(), styled, engaged) == first_painted(precedence().subrange(i as int, 3), styled, engaged),
        decreases 3 - i,
    {
        let state = states[i];
        proof {
            assert(precedence().subrange(i as int, 3).drop_first() =~= precedence().subrange(i + 1, 3));
        }
        if flag(styled, state) && flag(engaged, state) {
            return Some(state);
        }
        i = i + 1;
    }
    proof {
        assert(precedence().subrange(3, 3) =~= Seq::<PaintState>::empty());
    }
    None
}

/// Where `state` stands in [`PAINT_STATES`].
pub open spec fn rank(state: PaintState) -> int {
    match state {
        PaintState::Disabled => 0,
        PaintState::Active => 1,
        PaintState::Hover => 2,
    }
}

/// [`resolve_paint_state`] asking `engaged` whether a state is engaged, and asking it only for a state that has a paint and that no state ahead of it has already won: a state with no paint is never asked, so a box without a hover paint never reads its hover signal.
///
/// The answer is the first state in precedence order that has a paint and was answered engaged, and every state with a paint ahead of it was answered not engaged; `None` when every state with a paint was answered not engaged.
pub fn resolve_paint_state_by<F: Fn(PaintState) -> bool>(styled: StateFlags, engaged: F) -> (r: Option<PaintState>)
    requires
        forall|state: PaintState| engaged.requires((state,)),
    ensures
        r matches Some(won) ==> flag_of(styled, won) && engaged.ensures((won,), true),
        forall|state: PaintState|
            flag_of(styled, state) && (r matches Some(won) ==> rank(state) < rank(won)) ==> engaged.ensures(
                (state,),
                false,
            ),
{
    if styled.disabled {
        if engaged(PaintState::Disabled) {
            return Some(PaintState::Disabled);
        }
    }
    if styled.active {
        if engaged(PaintState::Active) {
            return Some(PaintState::Active);
        }
    }
    if styled.hover {
        if engaged(PaintState::Hover) {
            return Some(PaintState::Hover);
        }
    }
    None
}

/// Whether a pointer transition changes how the box looks, and so has to be tracked at all: it has a hover or a pressed paint.
pub fn repaints_on_pointer(styled: StateFlags) -> (r: bool)
    ensures
        r == (styled.hover || styled.active),
{
    styled.hover || styled.active
}

/// What a box has asked for, one flag per group: a press gesture, a drag gesture, a paint that follows the pointer, pointer hooks (hover, moves, wheel, cursor), a key handler, a place in the focus order, and holding the stroke.
#[derive(Clone, Copy, Debug, PartialEq, Eq, Structural)]
pub struct BoxClaims {
    pub press: bool,
    pub drag: bool,
    pub repaints_on_pointer: bool,
    pub pointer_hooks: bool,
    pub on_key: bool,
    pub focusable: bool,
    pub holds_stroke: bool,
}

/// Whether the box wants nothing from an event and can route it straight to its children, exactly as a plain container would: it claims nothing at all. Holding the stroke is something a box does with a press, though it answers none.
pub fn is_inert(claims: BoxClaims) -> (r: bool)
    ensures
        r == !(claims.press || claims.drag || claims.repaints_on_pointer || claims.pointer_hooks
            || claims.on_key || claims.focusable || claims.holds_stroke),
{
    !claims.press && !claims.drag && !claims.repaints_on_pointer && !claims.pointer_hooks
        && !claims.on_key && !claims.focusable && !claims.holds_stroke
}

/// Whether the box's pointer hooks need the pointer's moves: any of hover, moves, the wheel or a cursor shape. A cursor counts: a box whose only claim is a shape still has to see the crossings that set and clear it.
pub fn pointer_hooks_set(hover: bool, moved: bool, scroll: bool, cursor: bool) -> (r: bool)
    ensures
        r == (hover || moved || scroll || cursor),
{
    hover || moved || scroll || cursor
}

/// Whether a press or release of a button passes the box by, straight to its children: pressed state and focus are primary-only, so another button reaches the box only if its press gesture wants alternate buttons or its drag is armed by that button.
pub fn passes_by(primary: bool, wants_alt: bool, drag_arms: bool) -> (r: bool)
    ensures
        r == (!primary && !wants_alt && !drag_arms),
{
    !primary && !wants_alt && !drag_arms
}

/// An event, as far as the box's routing reads it.
#[derive(Clone, Copy, Debug, PartialEq, Eq, Structural)]
pub enum BoxEvent {
    PointerMoved,
    PointerPressed,
    PointerReleased,
    /// A wheel; `inside` tells whether its position is inside the box.
    Scrolled { inside: bool },
    CursorLeft,
    /// The window lost focus.
    FocusLost,
    /// A key press: whether it is Tab, whether Shift is held, and whether it is Enter or Space.
    Key { tab: bool, shift: bool, activation: bool },
    /// Anything else.
    Other,
}

/// Where a box sends an event.
#[derive(Clone, Copy, Debug, PartialEq, Eq, Structural)]
pub enum BoxRoute {
    /// A disabled box refuses a pointer event: it ends its containment and any drag, and answers that it ignored it.
    Refuse,
    /// Straight to the children, whose answer is the box's.
    Children,
    /// The box's own pointer handling for a move, a press or a release.
    Pointer,
    /// The box ends its containment, then hands the event to its children.
    LeaveThenChildren,
    /// The box ends its containment and any drag, then hands the event to its children.
    LoseFocusThenChildren,
    /// The children get first refusal; if none takes it, the box fires its wheel handler and takes it when `fires`, and ignores it otherwise.
    ScrollAfterChildren { fires: bool },
    /// Focus moves to the next box in the focus order, backwards when `backwards`; the box takes the key.
    MoveFocus { backwards: bool },
    /// The box tries, in turn, activating its press gesture (when `try_activate`) and its shortcut handler (when `try_shortcut`), taking the key at the first that fires; if neither does, the children get it.
    Key { try_activate: bool, try_shortcut: bool },
}

/// What a box needs to know of itself to route an event: whether it is disabled, whether it is inert (see [`is_inert`]), whether it holds focus, whether it activates on Enter and Space, whether it has a key handler and a wheel handler, and whether a text entry with the caret would take the key.
#[derive(Clone, Copy, Debug, PartialEq, Eq, Structural)]
pub struct BoxFacts {
    pub disabled: bool,
    pub inert: bool,
    pub focused: bool,
    pub activates: bool,
    pub has_on_key: bool,
    pub has_on_scroll: bool,
    pub text_entry_takes_key: bool,
}

/// Where a box with `facts` sends `event`.
///
/// A disabled box refuses every pointer event and routes the rest; an inert box routes everything. Otherwise moves, presses and releases are the box's own; the cursor leaving or the window losing focus end what the box holds before routing; a wheel goes to the children first; and a key is Tab for a focused box, then activation for a focused box that activates and has no key handler of its own, then the shortcut handler unless a text entry takes the key, then the children.
pub open spec fn route_of(facts: BoxFacts, event: BoxEvent) -> BoxRoute {
    if facts.disabled {
        match event {
            BoxEvent::PointerMoved | BoxEvent::PointerPressed | BoxEvent::PointerReleased | BoxEvent::Scrolled { .. } => BoxRoute::Refuse,
            _ => BoxRoute::Children,
        }
    } else if facts.inert {
        BoxRoute::Children
    } else {
        match event {
            BoxEvent::PointerMoved | BoxEvent::PointerPressed | BoxEvent::PointerReleased => BoxRoute::Pointer,
            BoxEvent::CursorLeft => BoxRoute::LeaveThenChildren,
            BoxEvent::FocusLost => BoxRoute::LoseFocusThenChildren,
            BoxEvent::Scrolled { inside } => BoxRoute::ScrollAfterChildren { fires: facts.has_on_scroll && inside },
            BoxEvent::Key { tab, shift, activation } => if facts.focused && tab {
                BoxRoute::MoveFocus { backwards: shift }
            } else {
                BoxRoute::Key {
                    try_activate: facts.activates && !facts.has_on_key && facts.focused && activation,
                    try_shortcut: facts.has_on_key && !facts.text_entry_takes_key,
                }
            },
            BoxEvent::Other => BoxRoute::Children,
        }
    }
}

/// Where a box with `facts` sends `event`; see [`route_of`].
pub fn box_route(facts: BoxFacts, event: BoxEvent) -> (r: BoxRoute)
    ensures
        r == route_of(facts, event),
{
    if facts.disabled {
        return match event {
            BoxEvent::PointerMoved | BoxEvent::PointerPressed | BoxEvent::PointerReleased | BoxEvent::Scrolled { .. } => BoxRoute::Refuse,
            _ => BoxRoute::Children,
        };
    }
    if facts.inert {
        return BoxRoute::Children;
    }
    match event {
        BoxEvent::PointerMoved | BoxEvent::PointerPressed | BoxEvent::PointerReleased => BoxRoute::Pointer,
        BoxEvent::CursorLeft => BoxRoute::LeaveThenChildren,
        BoxEvent::FocusLost => BoxRoute::LoseFocusThenChildren,
        BoxEvent::Scrolled { inside } => BoxRoute::ScrollAfterChildren { fires: facts.has_on_scroll && inside },
        BoxEvent::Key { tab, shift, activation } => {
            if facts.focused && tab {
                BoxRoute::MoveFocus { backwards: shift }
            } else {
                BoxRoute::Key {
                    try_activate: facts.activates && !facts.has_on_key && facts.focused && activation,
                    try_shortcut: facts.has_on_key && !facts.text_entry_takes_key,
                }
            }
        },
        BoxEvent::Other => BoxRoute::Children,
    }
}

/// A disabled box takes no pointer event and holds nothing of one: it refuses every move, press, release and wheel, and routes every other event to its children untouched.
pub proof fn lemma_a_disabled_box_takes_no_pointer(facts: BoxFacts, event: BoxEvent)
    requires
        facts.disabled,
    ensures
        route_of(facts, event) == BoxRoute::Refuse || route_of(facts, event) == BoxRoute::Children,
        route_of(facts, event) == BoxRoute::Refuse <==> (event == BoxEvent::PointerMoved || event == BoxEvent::PointerPressed
            || event == BoxEvent::PointerReleased || event is Scrolled),
{
}

/// A box that claims nothing is a plain container: every event goes straight to its children.
pub proof fn lemma_an_inert_box_only_routes(facts: BoxFacts, event: BoxEvent)
    requires
        !facts.disabled,
        facts.inert,
    ensures
        route_of(facts, event) == BoxRoute::Children,
{
}

/// The application's shortcuts stand aside while a text entry takes the key, and a box that handles its own keys is never activated by Enter or Space in its place.
pub proof fn lemma_typing_fires_no_shortcut(facts: BoxFacts, tab: bool, shift: bool, activation: bool)
    ensures
        facts.text_entry_takes_key ==> !(route_of(facts, BoxEvent::Key { tab, shift, activation }) matches BoxRoute::Key { try_shortcut: true, .. }),
        facts.has_on_key ==> !(route_of(facts, BoxEvent::Key { tab, shift, activation }) matches BoxRoute::Key { try_activate: true, .. }),
        !facts.focused ==> !(route_of(facts, BoxEvent::Key { tab, shift, activation }) is MoveFocus),
{
}

/// A wheel is the children's first: the box only ever fires its own handler after them, and only for a wheel inside it when it has one.
pub proof fn lemma_the_wheel_is_the_childrens_first(facts: BoxFacts, inside: bool)
    requires
        !facts.disabled,
        !facts.inert,
    ensures
        route_of(facts, BoxEvent::Scrolled { inside }) == (BoxRoute::ScrollAfterChildren { fires: facts.has_on_scroll && inside }),
{
}

/// The most specific engaged state wins: a disabled box with a disabled paint draws it whatever the pointer is doing, and a pressed box draws its pressed paint over its hover paint.
pub proof fn lemma_most_specific_state_wins(styled: StateFlags, engaged: StateFlags)
    ensures
        styled.disabled && engaged.disabled ==> first_painted(precedence(), styled, engaged) == Some(PaintState::Disabled),
        !(styled.disabled && engaged.disabled) && styled.active && engaged.active ==> first_painted(precedence(), styled, engaged) == Some(PaintState::Active),
        first_painted(precedence(), styled, engaged) matches Some(s) ==> flag_of(styled, s) && flag_of(engaged, s),
{
    reveal_with_fuel(first_painted, 4);
}

/// A box with no state paint always draws its own paint, however engaged its states are.
pub proof fn lemma_no_state_paint_draws_the_base(engaged: StateFlags)
    ensures
        first_painted(precedence(), StateFlags { disabled: false, active: false, hover: false }, engaged) is None,
{
    reveal_with_fuel(first_painted, 4);
}

/// Tab on a focused box moves focus forward, and Shift-Tab backward: the direction is exactly whether Shift is held, whatever else the key carries.
pub proof fn lemma_tab_moves_focus_by_shift(facts: BoxFacts, shift: bool, activation: bool)
    requires
        !facts.disabled,
        !facts.inert,
        facts.focused,
    ensures
        route_of(facts, BoxEvent::Key { tab: true, shift, activation }) == (BoxRoute::MoveFocus { backwards: shift }),
        route_of(facts, BoxEvent::Key { tab: true, shift: false, activation }) != (BoxRoute::MoveFocus { backwards: true }),
{
}

/// A live box handles its own moves, presses and releases; the cursor leaving and the window losing focus end what it holds before its children hear of them; and a key other than Tab on a focused box tries activation only for a focused box that activates on Enter or Space and has no key handler, and the shortcut only when there is a handler and no text entry takes the key.
pub proof fn lemma_a_live_box_routes_by_event(facts: BoxFacts, shift: bool, activation: bool)
    requires
        !facts.disabled,
        !facts.inert,
    ensures
        route_of(facts, BoxEvent::PointerMoved) == BoxRoute::Pointer,
        route_of(facts, BoxEvent::PointerPressed) == BoxRoute::Pointer,
        route_of(facts, BoxEvent::PointerReleased) == BoxRoute::Pointer,
        route_of(facts, BoxEvent::CursorLeft) == BoxRoute::LeaveThenChildren,
        route_of(facts, BoxEvent::FocusLost) == BoxRoute::LoseFocusThenChildren,
        route_of(facts, BoxEvent::Other) == BoxRoute::Children,
        route_of(facts, BoxEvent::Key { tab: false, shift, activation }) == (BoxRoute::Key {
            try_activate: facts.focused && facts.activates && !facts.has_on_key && activation,
            try_shortcut: facts.has_on_key && !facts.text_entry_takes_key,
        }),
{
}

} // verus!
