//! A group of checkboxes: several options, each toggled on its own.

use vstd::prelude::*;
use crate::choice::{option_plans, option_plans_from, OptionPlan, add_option_ids, cap16, column_width, column_width_of, find_option, first_id_match, group_step, hit_test_row, label_widths, option_ids_added, row_width, row_width_of, GroupStep};
use crate::event::{Event, EventResult, KeyCode, MouseButton, MouseEventKind, Widget};
use crate::handler::{handler_ready, Handler};
use crate::layout::{Constraints, ConstraintsView};
use crate::navigation::{DisabledItems, NoneDisabled, law_scan_all_enabled, next_start, previous_start, SelectableNavigation};
use crate::style::Style;
use crate::text::owned;
use crate::theme::Theme;
use crate::widget_id::WidgetId;
use crate::widget_state::{effective_style, fresh_state, interactive_base, StyleManager, WidgetState};

verus! {

/// How the options of a group are laid out.
#[derive(Debug, Clone, Copy, PartialEq, Eq, Structural)]
pub enum CheckboxDirection {
    /// One option per row
    Vertical,
    /// All options on one row
    Horizontal,
}

impl Default for CheckboxDirection {
    fn default() -> (d: Self)
        ensures
            d == CheckboxDirection::Vertical,
    {
        CheckboxDirection::Vertical
    }
}

/// The message the change callback gives for toggling option `i` to `b`, with
/// all states after the toggle; no message without a callback.
pub open spec fn change_fired<M>(
    h: Option<Box<dyn Handler<(usize, bool, Vec<bool>), M>>>,
    i: usize,
    b: bool,
    states: Seq<bool>,
    out: Seq<M>,
) -> bool {
    match h {
        Some(f) => out.len() == 1 && exists|v: Vec<bool>| v@ == states && #[trigger] f.gives((i, b, v), out[0]),
        None => out.len() == 0,
    }
}

/// Interactive group of checkboxes; several options can be checked at once.
#[verifier::reject_recursive_types(M)]
pub struct CheckboxGroup<M = ()> {
    options: Vec<String>,
    checked: Vec<bool>,
    direction: CheckboxDirection,
    state: WidgetState,
    navigation: SelectableNavigation,
    on_change: Option<Box<dyn Handler<(usize, bool, Vec<bool>), M>>>,
}

impl<M> CheckboxGroup<M> {
    #[verifier::type_invariant]
    spec fn inv(&self) -> bool {
        &&& handler_ready(self.on_change)
        &&& self.checked@.len() == self.options@.len()
        &&& self.options@.len() <= usize::MAX / 2
        &&& self.navigation.viewport() == self.options@.len()
        &&& (self.navigation.focused() matches Some(i) ==> i < self.options@.len() || i == 0)
        &&& (self.navigation.offset() == 0 || self.navigation.offset() < self.options@.len())
    }

    /// The options.
    pub closed spec fn labels(&self) -> Seq<String> {
        self.options@
    }

    /// The label widths, in columns.
    pub closed spec fn widths(&self) -> Seq<nat> {
        label_widths(self.options@)
    }

    /// Which options are checked.
    pub closed spec fn checks(&self) -> Seq<bool> {
        self.checked@
    }

    pub closed spec fn layout(&self) -> CheckboxDirection {
        self.direction
    }

    pub closed spec fn widget_state(&self) -> WidgetState {
        self.state
    }

    /// Keyboard focus within the group, and scrolling.
    pub closed spec fn nav(&self) -> SelectableNavigation {
        self.navigation
    }

    pub closed spec fn change_handler(&self) -> Option<Box<dyn Handler<(usize, bool, Vec<bool>), M>>> {
        self.on_change
    }

    /// Everything but the checks and the navigation is as in `other`.
    pub open spec fn same_setup(&self, other: &Self) -> bool {
        &&& self.labels() == other.labels()
        &&& self.layout() == other.layout()
        &&& self.change_handler() == other.change_handler()
    }

    /// A vertical group of the given options, none checked, none focused, with
    /// no callback (no machine holds more options than the bound).
    pub fn new(options: &[&str]) -> (g: Self)
        requires
            options@.len() <= usize::MAX / 2,
        ensures
            g.labels().len() == options@.len(),
            forall|i: int| 0 <= i < options@.len() ==> (#[trigger] g.labels()[i])@ == options@[i]@,
            g.checks() == Seq::new(options@.len(), |i: int| false),
            g.layout() == CheckboxDirection::Vertical,
            g.widget_state() == fresh_state(),
            g.nav().focused().is_none() && g.nav().offset() == 0,
            g.nav().viewport() == options@.len(),
            g.change_handler().is_none(),
    {
        let mut opts: Vec<String> = Vec::new();
        let mut checked: Vec<bool> = Vec::new();
        let mut i: usize = 0;
        while i < options.len()
            invariant
                i <= options@.len(),
                opts@.len() == i,
                checked@ == Seq::new(i as nat, |j: int| false),
                forall|j: int| 0 <= j < i ==> (#[trigger] opts@[j])@ == options@[j]@,
            decreases options@.len() - i,
        {
            opts.push(owned(options[i]));
            checked.push(false);
            i = i + 1;
        }
        let n = opts.len();
        CheckboxGroup {
            options: opts,
            checked,
            direction: CheckboxDirection::Vertical,
            state: WidgetState::new(),
            navigation: SelectableNavigation::new(n, n),
            on_change: None,
        }
    }

    /// Sets the checked states; ignored unless there is one per option.
    pub fn checked(self, checked: Vec<bool>) -> (g: Self)
        ensures
            g.checks() == if checked@.len() == self.labels().len() {
                checked@
            } else {
                self.checks()
            },
            g.same_setup(&self),
            g.widget_state() == self.widget_state(),
            g.nav() == self.nav(),
    {
        proof { use_type_invariant(&self); }
        if checked.len() == self.options.len() {
            CheckboxGroup { checked, ..self }
        } else {
            self
        }
    }

    /// Focuses option `index`; ignored unless it is an option.
    pub fn focused_index(self, index: usize) -> (g: Self)
        ensures
            g.nav().focused() == if index < self.labels().len() {
                Some(index)
            } else {
                self.nav().focused()
            },
            g.nav().offset() == self.nav().offset(),
            g.nav().viewport() == self.nav().viewport(),
            g.same_setup(&self),
            g.checks() == self.checks(),
            g.widget_state() == self.widget_state(),
    {
        proof { use_type_invariant(&self); }
        if index < self.options.len() {
            let mut nav = self.navigation;
            nav.set_focused_index(Some(index));
            CheckboxGroup { navigation: nav, ..self }
        } else {
            self
        }
    }

    /// Sets the callback called after a toggle with the option, its new state
    /// and all states.
    pub fn on_change<F: Fn(usize, bool, Vec<bool>) -> M + 'static>(self, handler: F) -> (g: Self)
        requires
            forall|a: (usize, bool, Vec<bool>)| call_requires(handler, a),
        ensures
            g.change_handler().is_some(),
            forall|a: (usize, bool, Vec<bool>), m: M| g.change_handler().unwrap().gives(a, m) == call_ensures(handler, a, m),
            g.labels() == self.labels(),
            g.layout() == self.layout(),
            g.checks() == self.checks(),
            g.widget_state() == self.widget_state(),
            g.nav() == self.nav(),
    {
        proof { use_type_invariant(&self); }
        let h: Box<dyn Handler<(usize, bool, Vec<bool>), M>> = Box::new(handler);
        CheckboxGroup {
            options: self.options,
            checked: self.checked,
            direction: self.direction,
            state: self.state,
            navigation: self.navigation,
            on_change: Some(h),
        }
    }

    /// Sets the disabled state; a disabled group ignores input.
    pub fn disabled(self, disabled: bool) -> (g: Self)
        ensures
            g.widget_state() == (WidgetState { disabled, ..self.widget_state() }),
            g.same_setup(&self),
            g.checks() == self.checks(),
            g.nav() == self.nav(),
    {
        proof { use_type_invariant(&self); }
        CheckboxGroup { state: self.state.with_disabled(disabled), ..self }
    }

    /// Sets the layout direction.
    pub fn direction(self, direction: CheckboxDirection) -> (g: Self)
        ensures
            g.layout() == direction,
            g.labels() == self.labels(),
            g.change_handler() == self.change_handler(),
            g.checks() == self.checks(),
            g.widget_state() == self.widget_state(),
            g.nav() == self.nav(),
    {
        proof { use_type_invariant(&self); }
        CheckboxGroup { direction, ..self }
    }

    /// Sets a custom style, merged over the theme's.
    pub fn style(self, style: Style) -> (g: Self)
        ensures
            g.widget_state() == (WidgetState { custom_style: Some(style), ..self.widget_state() }),
            g.same_setup(&self),
            g.checks() == self.checks(),
            g.nav() == self.nav(),
    {
        proof { use_type_invariant(&self); }
        CheckboxGroup { state: self.state.with_style(style), ..self }
    }

    /// Sets a custom focus style, merged over the theme's while focused.
    pub fn focus_style(self, style: Style) -> (g: Self)
        ensures
            g.widget_state() == (WidgetState {
                custom_focus_style: Some(style),
                ..self.widget_state()
            }),
            g.same_setup(&self),
            g.checks() == self.checks(),
            g.nav() == self.nav(),
    {
        proof { use_type_invariant(&self); }
        CheckboxGroup { state: self.state.with_focus_style(style), ..self }
    }

    /// What the group draws in a `width` by `height` area under `theme`:
    /// nothing in an empty area, else its options laid out in its direction
    /// (see `option_plans_from`), a check mark for each checked option.
    pub fn render_plan(&self, width: u16, height: u16, theme: &Theme) -> (v: Vec<OptionPlan>)
        ensures
            (width == 0 || height == 0) ==> v@.len() == 0,
            !(width == 0 || height == 0) ==> v@ == option_plans_from(
                self.labels(),
                self.checks(),
                self.nav().focused(),
                self.widget_state(),
                *theme,
                self.layout() == CheckboxDirection::Horizontal,
                width,
                height,
                0,
                0,
            ),
    {
        proof { use_type_invariant(self); }
        if width == 0 || height == 0 {
            return Vec::new();
        }
        let horizontal = match self.direction {
            CheckboxDirection::Horizontal => true,
            CheckboxDirection::Vertical => false,
        };
        option_plans(&self.options, &self.checked, self.navigation.focused_index(), &self.state, theme, horizontal, width, height)
    }

    /// The style of option `index` under `theme`: focused only when the group
    /// has focus and the option is the focused one.
    pub fn get_option_style(&self, option_index: usize, theme: &Theme) -> (s: Style)
        ensures
            ({
                let st = WidgetState {
                    focused: self.widget_state().focused && self.nav().focused() == Some(option_index),
                    ..self.widget_state()
                };
                s == effective_style(st, interactive_base(st, theme.styles))
            }),
    {
        let is_focused_option = self.state.focused && self.navigation.focused_index() == Some(option_index);
        let option_state = WidgetState { focused: is_focused_option, ..self.state };
        StyleManager::interactive_style(&option_state, theme)
    }

    /// Toggles option `index` and gives the callback's message; nothing happens
    /// for an index past the options.
    pub fn toggle_option(&mut self, index: usize) -> (out: Vec<M>)
        ensures
            index < old(self).checks().len() ==> final(self).checks() == old(self).checks().update(
                index as int,
                !old(self).checks()[index as int],
            ) && change_fired(
                old(self).change_handler(),
                index,
                !old(self).checks()[index as int],
                final(self).checks(),
                out@,
            ),
            index >= old(self).checks().len() ==> final(self).checks() == old(self).checks()
                && out@.len() == 0,
            final(self).same_setup(old(self)),
            final(self).widget_state() == old(self).widget_state(),
            final(self).nav() == old(self).nav(),
    {
        proof { use_type_invariant(&*self); }
        if index < self.checked.len() {
            let b = !self.checked[index];
            let mut states = self.checked.clone();
            states.set(index, b);
            proof {
                assert(states@ =~= old(self).checked@.update(index as int, b));
            }
            self.checked = states;
            let snapshot = self.checked.clone();
            proof {
                assert(snapshot@ =~= self.checked@);
            }
            match &self.on_change {
                Some(f) => {
                    let ghost args = (index, b, snapshot);
                    let m = f.call((index, b, snapshot));
                    let mut v = Vec::new();
                    v.push(m);
                    proof {
                        assert(f.gives(args, v@[0]));
                        assert(args.2@ == self.checked@);
                    }
                    v
                },
                None => Vec::new(),
            }
        } else {
            Vec::new()
        }
    }

    /// Moves focus to the previous option (cyclically), making it visible.
    fn move_previous(&mut self)
        ensures
            old(self).labels().len() > 0 ==> SelectableNavigation::focus_moved(
                old(self).nav(),
                final(self).nav(),
                previous_start(old(self).nav().focused(), old(self).labels().len() as int),
            ),
            old(self).labels().len() == 0 ==> final(self).nav() == old(self).nav(),
            final(self).same_setup(old(self)),
            final(self).checks() == old(self).checks(),
            final(self).widget_state() == old(self).widget_state(),
    {
        proof { use_type_invariant(&*self); }
        let n = self.options.len();
        let ghost dis = |i: int| NoneDisabled.off(i);
        proof {
            if n > 0 {
                let ps = previous_start(self.navigation.focused(), n as int);
                law_scan_all_enabled(dis, ps, n as int);
                assert((ps + n) % (n as int) == ps) by (nonlinear_arith)
                    requires
                        0 <= ps < n,
                ;
            }
        }
        let mut nav = self.navigation;
        nav.focus_previous(NoneDisabled, n);
        self.navigation = nav;
    }

    /// Moves focus to the next option (cyclically), making it visible.
    fn move_next(&mut self)
        ensures
            old(self).labels().len() > 0 ==> SelectableNavigation::focus_moved(
                old(self).nav(),
                final(self).nav(),
                next_start(old(self).nav().focused()) % (old(self).labels().len() as int),
            ),
            old(self).labels().len() == 0 ==> final(self).nav() == old(self).nav(),
            final(self).same_setup(old(self)),
            final(self).checks() == old(self).checks(),
            final(self).widget_state() == old(self).widget_state(),
    {
        proof { use_type_invariant(&*self); }
        let n = self.options.len();
        let ghost dis = |i: int| NoneDisabled.off(i);
        proof {
            if n > 0 {
                law_scan_all_enabled(dis, next_start(self.navigation.focused()), n as int);
            }
        }
        let mut nav = self.navigation;
        nav.focus_next(NoneDisabled, n);
        self.navigation = nav;
    }

    /// What `event` does to this group.
    pub open spec fn step(&self, event: Event) -> GroupStep {
        group_step(
            self.widget_state().disabled,
            self.layout() == CheckboxDirection::Vertical,
            self.widths(),
            match self.nav().focused() {
                Some(i) => Some(i as int),
                None => None,
            },
            event,
        )
    }
}

impl<M> Widget<M> for CheckboxGroup<M> {
    open spec fn can_focus(&self) -> bool {
        false
    }

    open spec fn focus_flag(&self) -> bool {
        self.widget_state().focused
    }

    open spec fn keeps_focus(&self) -> bool {
        true
    }

    /// An event that is no step of the group.
    open spec fn passes_over(&self, event: Event) -> bool {
        self.step(event) is Ignore
    }

    /// Arrows move focus (Up/Down in a column, Left/Right in a row), Enter or
    /// Space toggles the focused option, a left click toggles the option under
    /// it; a disabled group ignores everything.
    fn handle_event(&mut self, event: &Event) -> (r: EventResult<M>)
        ensures
            final(self).same_setup(old(self)),
            final(self).widget_state() == old(self).widget_state(),
            match old(self).step(*event) {
                GroupStep::Ignore => r is Ignored && final(self).checks() == old(self).checks()
                    && final(self).nav() == old(self).nav(),
                GroupStep::Previous => (r matches EventResult::Consumed(v) && v@.len() == 0)
                    && final(self).checks() == old(self).checks() && (old(self).labels().len() > 0
                    ==> SelectableNavigation::focus_moved(
                    old(self).nav(),
                    final(self).nav(),
                    previous_start(old(self).nav().focused(), old(self).labels().len() as int),
                )) && (old(self).labels().len() == 0 ==> final(self).nav() == old(self).nav()),
                GroupStep::Next => (r matches EventResult::Consumed(v) && v@.len() == 0)
                    && final(self).checks() == old(self).checks() && (old(self).labels().len() > 0
                    ==> SelectableNavigation::focus_moved(
                    old(self).nav(),
                    final(self).nav(),
                    next_start(old(self).nav().focused()) % (old(self).labels().len() as int),
                )) && (old(self).labels().len() == 0 ==> final(self).nav() == old(self).nav()),
                GroupStep::Act(i) => final(self).nav() == old(self).nav() && (r matches EventResult::Consumed(
                    v,
                ) && (i < old(self).checks().len() ==> final(self).checks()
                    == old(self).checks().update(i, !old(self).checks()[i]) && change_fired(
                    old(self).change_handler(),
                    i as usize,
                    !old(self).checks()[i],
                    final(self).checks(),
                    v@,
                )) && (i >= old(self).checks().len() ==> final(self).checks() == old(self).checks()
                    && v@.len() == 0)),
            },
    {
        proof { use_type_invariant(&*self); }
        if self.state.disabled {
            return EventResult::Ignored;
        }
        let vertical = match self.direction {
            CheckboxDirection::Vertical => true,
            CheckboxDirection::Horizontal => false,
        };
        match event {
            Event::Key(key_event) => {
                let code = key_event.code;
                let up = match code {
                    KeyCode::Up => vertical,
                    KeyCode::Left => !vertical,
                    _ => false,
                };
                let down = match code {
                    KeyCode::Down => vertical,
                    KeyCode::Right => !vertical,
                    _ => false,
                };
                let activate = match code {
                    KeyCode::Enter => true,
                    KeyCode::Char(c) => c == ' ',
                    _ => false,
                };
                if up {
                    self.move_previous();
                    return EventResult::consumed();
                }
                if down {
                    self.move_next();
                    return EventResult::consumed();
                }
                if activate {
                    if let Some(focused_idx) = self.navigation.focused_index() {
                        let messages = self.toggle_option(focused_idx);
                        return EventResult::Consumed(messages);
                    }
                }
                EventResult::Ignored
            },
            Event::Mouse(mouse_event) => {
                let left_down = match mouse_event.kind {
                    MouseEventKind::Down(MouseButton::Left) => true,
                    _ => false,
                };
                if !left_down {
                    return EventResult::Ignored;
                }
                if vertical {
                    let row = mouse_event.row as usize;
                    if row < self.options.len() {
                        let messages = self.toggle_option(row);
                        return EventResult::Consumed(messages);
                    }
                    EventResult::Ignored
                } else {
                    match hit_test_row(&self.options, mouse_event.column) {
                        Some(index) => {
                            let messages = self.toggle_option(index);
                            EventResult::Consumed(messages)
                        },
                        None => EventResult::Ignored,
                    }
                }
            },
            _ => EventResult::Ignored,
        }
    }

    /// A column: as wide as the widest option, one row per option (the count
    /// taken modulo 2^16). A row: as wide as all options with their gaps, one
    /// row high. Widths are capped at the largest `u16`.
    fn constraints(&self) -> (c: Constraints)
        ensures
            self.layout() == CheckboxDirection::Vertical ==> c@ == (ConstraintsView {
                min_width: cap16(column_width(self.widths())),
                max_width: Some(cap16(column_width(self.widths()))),
                min_height: self.labels().len() as u16,
                max_height: Some(self.labels().len() as u16),
                flex: None,
            }),
            self.layout() == CheckboxDirection::Horizontal ==> c@ == (ConstraintsView {
                min_width: cap16(row_width(self.widths())),
                max_width: Some(cap16(row_width(self.widths()))),
                min_height: 1,
                max_height: Some(1),
                flex: None,
            }),
    {
        match self.direction {
            CheckboxDirection::Vertical => {
                let w = column_width_of(&self.options);
                let h = self.options.len() as u16;
                Constraints { min_width: w, max_width: Some(w), min_height: h, max_height: Some(h), flex: None }
            },
            CheckboxDirection::Horizontal => {
                let w = row_width_of(&self.options);
                Constraints { min_width: w, max_width: Some(w), min_height: 1, max_height: Some(1), flex: None }
            },
        }
    }

    /// The group itself is not focusable; its options are, one by one.
    fn focusable(&self) -> (b: bool)
        ensures
            !b,
    {
        false
    }

    fn is_focused(&self) -> (b: bool)
        ensures
            b == self.widget_state().focused,
    {
        self.state.focused
    }

    /// Sets focus; on gaining it, the first option is focused unless one already is.
    fn set_focused(&mut self, focused: bool)
        ensures
            final(self).widget_state() == (WidgetState { focused, ..old(self).widget_state() }),
            final(self).same_setup(old(self)),
            final(self).checks() == old(self).checks(),
            final(self).nav().offset() == old(self).nav().offset(),
            final(self).nav().viewport() == old(self).nav().viewport(),
            final(self).nav().focused() == if focused && (old(self).nav().focused() matches Some(i)
                ==> i >= old(self).labels().len()) {
                Some(0usize)
            } else {
                old(self).nav().focused()
            },
    {
        proof { use_type_invariant(&*self); }
        self.state = WidgetState { focused, ..self.state };
        if focused {
            let reset = match self.navigation.focused_index() {
                Some(idx) => idx >= self.options.len(),
                None => true,
            };
            if reset {
                let mut nav = self.navigation;
                nav.set_focused_index(Some(0));
                self.navigation = nav;
            }
        }
    }

    /// Adds one identifier per option, at `current_path` followed by the option's
    /// index; nothing when the group is disabled or empty.
    fn build_focus_chain_recursive(&self, current_path: &mut Vec<usize>, chain: &mut Vec<WidgetId>)
        ensures
            final(current_path)@ == old(current_path)@,
            (self.widget_state().disabled || self.labels().len() == 0) ==> final(chain)@ == old(chain)@,
            !(self.widget_state().disabled || self.labels().len() == 0) ==> option_ids_added(
                old(chain)@,
                final(chain)@,
                old(current_path)@,
                self.labels().len() as int,
            ),
    {
        if self.state.disabled || self.options.len() == 0 {
            return;
        }
        add_option_ids(current_path, chain, self.options.len());
    }

    /// Focuses the first option whose identifier is `focus_id`; without one the
    /// group loses focus.
    fn update_focus_states_recursive(&mut self, current_path: &[usize], focus_id: Option<WidgetId>)
        ensures
            final(self).same_setup(old(self)),
            final(self).checks() == old(self).checks(),
            final(self).nav().offset() == old(self).nav().offset(),
            final(self).nav().viewport() == old(self).nav().viewport(),
            ({
                let hit = match focus_id {
                    Some(f) => first_id_match(current_path@, old(self).labels().len() as int, f.value(), 0),
                    None => None,
                };
                match hit {
                    Some(i) => final(self).widget_state() == (WidgetState {
                        focused: true,
                        ..old(self).widget_state()
                    }) && final(self).nav().focused() == Some(i as usize),
                    None => final(self).widget_state() == (WidgetState {
                        focused: false,
                        ..old(self).widget_state()
                    }) && final(self).nav().focused() == old(self).nav().focused(),
                }
            }),
    {
        proof { use_type_invariant(&*self); }
        let hit = match focus_id {
            Some(focus) => find_option(current_path, self.options.len(), focus),
            None => None,
        };
        if let Some(i) = hit {
            self.state = WidgetState { focused: true, ..self.state };
            let mut nav = self.navigation;
            nav.set_focused_index(Some(i));
            self.navigation = nav;
            return;
        }
        self.state = WidgetState { focused: false, ..self.state };
    }
}

/// A new vertical checkbox group of the given options.
pub fn checkbox_group<M>(options: &[&str]) -> (g: CheckboxGroup<M>)
    requires
        options@.len() <= usize::MAX / 2,
    ensures
        g.labels().len() == options@.len(),
        forall|i: int| 0 <= i < options@.len() ==> (#[trigger] g.labels()[i])@ == options@[i]@,
        g.checks() == Seq::new(options@.len(), |i: int| false),
        g.layout() == CheckboxDirection::Vertical,
        g.widget_state() == fresh_state(),
        g.nav().focused().is_none() && g.nav().offset() == 0,
        g.change_handler().is_none(),
{
    CheckboxGroup::new(options)
}

} // verus!
