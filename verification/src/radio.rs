//! A radio group: several options, at most one selected.

use vstd::prelude::*;
use crate::choice::{option_plans, option_plans_from, OptionPlan, add_option_ids, cap16, column_width, column_width_of, find_option, first_id_match, group_step, hit_test_row, label_widths, option_ids_added, row_width, row_width_of, GroupStep};
use crate::event::{Event, EventResult, KeyCode, MouseButton, MouseEventKind, Widget};
use crate::handler::{fired, Handler, ReadyHandler};
use crate::layout::{Constraints, ConstraintsView};
use crate::style::Style;
use crate::text::owned;
use crate::theme::Theme;
use crate::widget_id::WidgetId;
use crate::widget_state::{effective_style, fresh_state, interactive_base, StatefulWidgetBuilder, StyleManager, WidgetState};

verus! {

/// How the options of a radio group are laid out.
#[derive(Debug, Clone, Copy, PartialEq, Eq, Structural)]
pub enum RadioDirection {
    /// One option per row
    Vertical,
    /// All options on one row
    Horizontal,
}

impl Default for RadioDirection {
    fn default() -> (d: Self)
        ensures
            d == RadioDirection::Vertical,
    {
        RadioDirection::Vertical
    }
}

/// Interactive group of radio buttons; selecting one option deselects the others.
#[verifier::reject_recursive_types(M)]
pub struct RadioGroup<M = ()> {
    options: Vec<String>,
    selected_index: Option<usize>,
    focused_option: usize,
    direction: RadioDirection,
    state: WidgetState,
    on_change: ReadyHandler<(usize,), M>,
}

impl<M> RadioGroup<M> {
    pub closed spec fn labels(&self) -> Seq<String> {
        self.options@
    }

    /// The label widths, in columns.
    pub closed spec fn widths(&self) -> Seq<nat> {
        label_widths(self.options@)
    }

    /// The selected option.
    pub closed spec fn selection(&self) -> Option<usize> {
        self.selected_index
    }

    /// The option that has keyboard focus within the group.
    pub closed spec fn focus(&self) -> usize {
        self.focused_option
    }

    pub closed spec fn layout(&self) -> RadioDirection {
        self.direction
    }

    pub closed spec fn widget_state(&self) -> WidgetState {
        self.state
    }

    pub closed spec fn change_handler(&self) -> Option<Box<dyn Handler<(usize,), M>>> {
        self.on_change.handler()
    }

    /// Options, layout and callback are as in `other`.
    pub open spec fn same_setup(&self, other: &Self) -> bool {
        &&& self.labels() == other.labels()
        &&& self.layout() == other.layout()
        &&& self.change_handler() == other.change_handler()
    }

    /// A vertical group of the given options, none selected, focus on the first.
    pub fn new(options: &[&str]) -> (g: Self)
        ensures
            g.labels().len() == options@.len(),
            forall|i: int| 0 <= i < options@.len() ==> (#[trigger] g.labels()[i])@ == options@[i]@,
            g.selection().is_none(),
            g.focus() == 0,
            g.layout() == RadioDirection::Vertical,
            g.widget_state() == fresh_state(),
            g.change_handler().is_none(),
    {
        let mut opts: Vec<String> = Vec::new();
        let mut i: usize = 0;
        while i < options.len()
            invariant
                i <= options@.len(),
                opts@.len() == i,
                forall|j: int| 0 <= j < i ==> (#[trigger] opts@[j])@ == options@[j]@,
            decreases options@.len() - i,
        {
            opts.push(owned(options[i]));
            i = i + 1;
        }
        RadioGroup {
            options: opts,
            selected_index: None,
            focused_option: 0,
            direction: RadioDirection::Vertical,
            state: WidgetState::new(),
            on_change: ReadyHandler::none(),
        }
    }

    /// Selects (and focuses) option `index`; ignored unless it is an option.
    pub fn selected(self, index: usize) -> (g: Self)
        ensures
            index < self.labels().len() ==> g.selection() == Some(index) && g.focus() == index,
            index >= self.labels().len() ==> g.selection() == self.selection() && g.focus()
                == self.focus(),
            g.same_setup(&self),
            g.widget_state() == self.widget_state(),
    {
        if index < self.options.len() {
            RadioGroup { selected_index: Some(index), focused_option: index, ..self }
        } else {
            self
        }
    }

    /// Sets the callback called with the index of a newly selected option.
    pub fn on_change<F: Fn(usize) -> M + 'static>(self, handler: F) -> (g: Self)
        requires
            forall|a: (usize,)| call_requires(handler, a),
        ensures
            g.change_handler().is_some(),
            forall|a: (usize,), m: M| g.change_handler().unwrap().gives(a, m) == call_ensures(handler, a, m),
            g.labels() == self.labels(),
            g.layout() == self.layout(),
            g.selection() == self.selection(),
            g.focus() == self.focus(),
            g.widget_state() == self.widget_state(),
    {
        RadioGroup {
            options: self.options,
            selected_index: self.selected_index,
            focused_option: self.focused_option,
            direction: self.direction,
            state: self.state,
            on_change: ReadyHandler::from_fn(handler),
        }
    }

    /// Sets the layout direction.
    pub fn direction(self, direction: RadioDirection) -> (g: Self)
        ensures
            g.layout() == direction,
            g.labels() == self.labels(),
            g.change_handler() == self.change_handler(),
            g.selection() == self.selection(),
            g.focus() == self.focus(),
            g.widget_state() == self.widget_state(),
    {
        RadioGroup { direction, ..self }
    }

    /// Sets the disabled state; a disabled group ignores input.
    pub fn disabled(self, disabled: bool) -> (g: Self)
        ensures
            g.widget_state() == (WidgetState { disabled, ..self.widget_state() }),
            g.same_setup(&self),
            g.selection() == self.selection(),
            g.focus() == self.focus(),
    {
        RadioGroup { state: self.state.with_disabled(disabled), ..self }
    }

    /// Sets a custom style, merged over the theme's.
    pub fn style(self, style: Style) -> (g: Self)
        ensures
            g.widget_state() == (WidgetState { custom_style: Some(style), ..self.widget_state() }),
            g.same_setup(&self),
            g.selection() == self.selection(),
            g.focus() == self.focus(),
    {
        RadioGroup { state: self.state.with_style(style), ..self }
    }

    /// Sets a custom focus style, merged over the theme's while focused.
    pub fn focus_style(self, style: Style) -> (g: Self)
        ensures
            g.widget_state() == (WidgetState {
                custom_focus_style: Some(style),
                ..self.widget_state()
            }),
            g.same_setup(&self),
            g.selection() == self.selection(),
            g.focus() == self.focus(),
    {
        RadioGroup { state: self.state.with_focus_style(style), ..self }
    }

    /// Which options are marked: the selected one.
    pub open spec fn marks(&self) -> Seq<bool> {
        Seq::new(self.labels().len(), |i: int| self.selection() == Some(i as usize))
    }

    /// What the group draws in a `width` by `height` area under `theme`:
    /// nothing in an empty area, else its options laid out in its direction
    /// (see `option_plans_from`), the selected one marked.
    pub fn render_plan(&self, width: u16, height: u16, theme: &Theme) -> (v: Vec<OptionPlan>)
        ensures
            (width == 0 || height == 0) ==> v@.len() == 0,
            !(width == 0 || height == 0) ==> v@ == option_plans_from(
                self.labels(),
                self.marks(),
                Some(self.focus()),
                self.widget_state(),
                *theme,
                self.layout() == RadioDirection::Horizontal,
                width,
                height,
                0,
                0,
            ),
    {
        if width == 0 || height == 0 {
            return Vec::new();
        }
        let n = self.options.len();
        let mut marks: Vec<bool> = Vec::new();
        let mut i: usize = 0;
        while i < n
            invariant
                n == self.options@.len(),
                i <= n,
                marks@.len() == i,
                forall|k: int| 0 <= k < i ==> marks@[k] == (self.selected_index == Some(k as usize)),
            decreases n - i,
        {
            let m = match self.selected_index {
                Some(sel) => sel == i,
                None => false,
            };
            marks.push(m);
            i = i + 1;
        }
        proof {
            assert(marks@ =~= self.marks());
        }
        let horizontal = match self.direction {
            RadioDirection::Horizontal => true,
            RadioDirection::Vertical => false,
        };
        option_plans(&self.options, &marks, Some(self.focused_option), &self.state, theme, horizontal, width, height)
    }

    /// The style of option `index` under `theme`: focused only when the group
    /// has focus and the option is the focused one.
    pub fn get_option_style(&self, option_index: usize, theme: &Theme) -> (s: Style)
        ensures
            ({
                let st = WidgetState {
                    focused: self.widget_state().focused && option_index == self.focus(),
                    ..self.widget_state()
                };
                s == effective_style(st, interactive_base(st, theme.styles))
            }),
    {
        let is_focused_option = self.state.focused && option_index == self.focused_option;
        let option_state = WidgetState { focused: is_focused_option, ..self.state };
        StyleManager::interactive_style(&option_state, theme)
    }

    /// Selects option `index` and gives the callback's message; selecting the
    /// selected option again gives nothing.
    pub fn select_option(&mut self, index: usize) -> (out: Vec<M>)
        ensures
            old(self).selection() == Some(index) ==> final(self).selection() == old(self).selection()
                && out@.len() == 0,
            old(self).selection() != Some(index) ==> final(self).selection() == Some(index)
                && fired(old(self).change_handler(), (index,), out@),
            final(self).same_setup(old(self)),
            final(self).focus() == old(self).focus(),
            final(self).widget_state() == old(self).widget_state(),
    {
        if self.selected_index == Some(index) {
            return Vec::new();
        }
        self.selected_index = Some(index);
        self.on_change.fire((index,))
    }

    /// Moves focus one option back, stopping at the first.
    pub fn focus_previous(&mut self)
        ensures
            final(self).focus() == if old(self).focus() > 0 {
                (old(self).focus() - 1) as usize
            } else {
                old(self).focus()
            },
            final(self).same_setup(old(self)),
            final(self).selection() == old(self).selection(),
            final(self).widget_state() == old(self).widget_state(),
    {
        if self.focused_option > 0 {
            self.focused_option = self.focused_option - 1;
        }
    }

    /// Moves focus one option on, stopping at the last.
    pub fn focus_next(&mut self)
        ensures
            final(self).focus() == if old(self).focus() + 1 < old(self).labels().len() {
                (old(self).focus() + 1) as usize
            } else {
                old(self).focus()
            },
            final(self).same_setup(old(self)),
            final(self).selection() == old(self).selection(),
            final(self).widget_state() == old(self).widget_state(),
    {
        let last = if self.options.len() > 0 {
            self.options.len() - 1
        } else {
            0
        };
        if self.focused_option < last {
            self.focused_option = self.focused_option + 1;
        }
    }

    /// What `event` does to this group.
    pub open spec fn step(&self, event: Event) -> GroupStep {
        group_step(
            self.widget_state().disabled,
            self.layout() == RadioDirection::Vertical,
            self.widths(),
            Some(self.focus() as int),
            event,
        )
    }
}

/// The state builders that come with the kept `WidgetState` (the inherent
/// `disabled`, `style` and `focus_style` say more: nothing else changes).
impl<M> StatefulWidgetBuilder for RadioGroup<M> {
    open spec fn builder_state(&self) -> WidgetState {
        self.widget_state()
    }

    fn widget_state_mut(&mut self) -> (s: &mut WidgetState) {
        &mut self.state
    }
}

impl<M> Widget<M> for RadioGroup<M> {
    open spec fn can_focus(&self) -> bool {
        !self.widget_state().disabled
    }

    open spec fn focus_flag(&self) -> bool {
        self.widget_state().focused
    }

    open spec fn keeps_focus(&self) -> bool {
        true
    }

    /// An event that is no step of the group.
    open spec fn passes_over(&self, event: Event) -> bool {
        self.step(event) is Ignore
    }

    /// Arrows move focus (Up/Down in a column, Left/Right in a row), Enter or
    /// Space selects the focused option, a left click selects the option under
    /// it; a disabled group ignores everything.
    fn handle_event(&mut self, event: &Event) -> (r: EventResult<M>)
        ensures
            final(self).same_setup(old(self)),
            final(self).widget_state() == old(self).widget_state(),
            match old(self).step(*event) {
                GroupStep::Ignore => r is Ignored && final(self).selection() == old(self).selection()
                    && final(self).focus() == old(self).focus(),
                GroupStep::Previous => (r matches EventResult::Consumed(v) && v@.len() == 0)
                    && final(self).selection() == old(self).selection() && final(self).focus() == if old(
                    self,
                ).focus() > 0 {
                    (old(self).focus() - 1) as usize
                } else {
                    old(self).focus()
                },
                GroupStep::Next => (r matches EventResult::Consumed(v) && v@.len() == 0)
                    && final(self).selection() == old(self).selection() && final(self).focus() == if old(
                    self,
                ).focus() + 1 < old(self).labels().len() {
                    (old(self).focus() + 1) as usize
                } else {
                    old(self).focus()
                },
                GroupStep::Act(i) => final(self).focus() == old(self).focus() && (r matches EventResult::Consumed(
                    v,
                ) && (old(self).selection() == Some(i as usize) ==> final(self).selection()
                    == old(self).selection() && v@.len() == 0) && (old(self).selection() != Some(
                    i as usize,
                ) ==> final(self).selection() == Some(i as usize) && fired(
                    old(self).change_handler(),
                    (i as usize,),
                    v@,
                ))),
            },
    {
        if self.state.disabled {
            return EventResult::Ignored;
        }
        let vertical = match self.direction {
            RadioDirection::Vertical => true,
            RadioDirection::Horizontal => false,
        };
        match event {
            Event::Key(key_event) => {
                let code = key_event.code;
                let up = match code {
                    KeyCode::Up => vertical,
                    KeyCode::Left => !vertical,
                    _ => false,
                };
                let down = match code {
                    KeyCode::Down => vertical,
                    KeyCode::Right => !vertical,
                    _ => false,
                };
                let activate = match code {
                    KeyCode::Enter => true,
                    KeyCode::Char(c) => c == ' ',
                    _ => false,
                };
                if up {
                    self.focus_previous();
                    return EventResult::consumed();
                }
                if down {
                    self.focus_next();
                    return EventResult::consumed();
                }
                if activate {
                    let index = self.focused_option;
                    let messages = self.select_option(index);
                    return EventResult::Consumed(messages);
                }
                EventResult::Ignored
            },
            Event::Mouse(mouse_event) => {
                let left_down = match mouse_event.kind {
                    MouseEventKind::Down(MouseButton::Left) => true,
                    _ => false,
                };
                if !left_down {
                    return EventResult::Ignored;
                }
                if vertical {
                    let row = mouse_event.row as usize;
                    if row < self.options.len() {
                        let messages = self.select_option(row);
                        return EventResult::Consumed(messages);
                    }
                    EventResult::Ignored
                } else {
                    match hit_test_row(&self.options, mouse_event.column) {
                        Some(index) => {
                            let messages = self.select_option(index);
                            EventResult::Consumed(messages)
                        },
                        None => EventResult::Ignored,
                    }
                }
            },
            _ => EventResult::Ignored,
        }
    }

    /// A column: as wide as the widest option, one row per option (the count
    /// taken modulo 2^16). A row: as wide as all options with their gaps, one
    /// row high. Widths are capped at the largest `u16`.
    fn constraints(&self) -> (c: Constraints)
        ensures
            self.layout() == RadioDirection::Vertical ==> c@ == (ConstraintsView {
                min_width: cap16(column_width(self.widths())),
                max_width: Some(cap16(column_width(self.widths()))),
                min_height: self.labels().len() as u16,
                max_height: Some(self.labels().len() as u16),
                flex: None,
            }),
            self.layout() == RadioDirection::Horizontal ==> c@ == (ConstraintsView {
                min_width: cap16(row_width(self.widths())),
                max_width: Some(cap16(row_width(self.widths()))),
                min_height: 1,
                max_height: Some(1),
                flex: None,
            }),
    {
        match self.direction {
            RadioDirection::Vertical => {
                let w = column_width_of(&self.options);
                let h = self.options.len() as u16;
                Constraints { min_width: w, max_width: Some(w), min_height: h, max_height: Some(h), flex: None }
            },
            RadioDirection::Horizontal => {
                let w = row_width_of(&self.options);
                Constraints { min_width: w, max_width: Some(w), min_height: 1, max_height: Some(1), flex: None }
            },
        }
    }

    /// Focusable unless disabled.
    fn focusable(&self) -> (b: bool)
        ensures
            b == !self.widget_state().disabled,
    {
        self.state.is_focusable()
    }

    fn is_focused(&self) -> (b: bool)
        ensures
            b == self.widget_state().focused,
    {
        self.state.focused
    }

    /// Sets focus; on gaining it, focus moves to the selected option if any.
    fn set_focused(&mut self, focused: bool)
        ensures
            final(self).widget_state() == (WidgetState { focused, ..old(self).widget_state() }),
            final(self).same_setup(old(self)),
            final(self).selection() == old(self).selection(),
            final(self).focus() == if focused && old(self).selection().is_some() {
                old(self).selection().unwrap()
            } else {
                old(self).focus()
            },
    {
        self.state = WidgetState { focused, ..self.state };
        if focused {
            if let Some(selected) = self.selected_index {
                self.focused_option = selected;
            }
        }
    }

    /// Adds one identifier per option, at `current_path` followed by the option's
    /// index; nothing when the group is disabled or empty.
    fn build_focus_chain_recursive(&self, current_path: &mut Vec<usize>, chain: &mut Vec<WidgetId>)
        ensures
            final(current_path)@ == old(current_path)@,
            (self.widget_state().disabled || self.labels().len() == 0) ==> final(chain)@ == old(chain)@,
            !(self.widget_state().disabled || self.labels().len() == 0) ==> option_ids_added(
                old(chain)@,
                final(chain)@,
                old(current_path)@,
                self.labels().len() as int,
            ),
    {
        if self.state.disabled || self.options.len() == 0 {
            return;
        }
        add_option_ids(current_path, chain, self.options.len());
    }

    /// Focuses the first option whose identifier is `focus_id`; without one the
    /// group loses focus.
    fn update_focus_states_recursive(&mut self, current_path: &[usize], focus_id: Option<WidgetId>)
        ensures
            final(self).same_setup(old(self)),
            final(self).selection() == old(self).selection(),
            ({
                let hit = match focus_id {
                    Some(f) => first_id_match(current_path@, old(self).labels().len() as int, f.value(), 0),
                    None => None,
                };
                match hit {
                    Some(i) => final(self).widget_state() == (WidgetState {
                        focused: true,
                        ..old(self).widget_state()
                    }) && final(self).focus() == i as usize,
                    None => final(self).widget_state() == (WidgetState {
                        focused: false,
                        ..old(self).widget_state()
                    }) && final(self).focus() == old(self).focus(),
                }
            }),
    {
        let hit = match focus_id {
            Some(focus) => find_option(current_path, self.options.len(), focus),
            None => None,
        };
        if let Some(i) = hit {
            self.state = WidgetState { focused: true, ..self.state };
            self.focused_option = i;
            return;
        }
        self.state = WidgetState { focused: false, ..self.state };
    }
}

/// A new vertical radio group of the given options.
pub fn radio_group<M>(options: &[&str]) -> (g: RadioGroup<M>)
    ensures
        g.labels().len() == options@.len(),
        forall|i: int| 0 <= i < options@.len() ==> (#[trigger] g.labels()[i])@ == options@[i]@,
        g.selection().is_none(),
        g.focus() == 0,
        g.layout() == RadioDirection::Vertical,
        g.widget_state() == fresh_state(),
        g.change_handler().is_none(),
{
    RadioGroup::new(options)
}

} // verus!
