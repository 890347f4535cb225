//! The table of bindings: for each control of the panel, the command to
//! run when it is pressed and the command to run when it is turned.

use crate::command::{with_amount, TemplatedCommand};
use crate::config::text_of;
use crate::report::{decode_report, event_of, PanelEvent};
use vstd::prelude::*;

verus! {

/// A raw rotation byte scaled to a range of width `span` that starts at
/// `offset`, rounded down.
pub open spec fn scaled(amount: u8, span: u16, offset: u16) -> nat {
    (amount as nat * span as nat) / 255 + offset as nat
}

/// Scales a raw rotation byte to a range of width `span` that starts at
/// `offset`.
pub fn scale(amount: u8, span: u16, offset: u16) -> (value: u32)
    ensures
        value == scaled(amount, span, offset),
{
    assert(amount as nat * span as nat <= 255 * 65535) by (nonlinear_arith)
        requires
            amount <= 255,
            span <= 65535,
    ;
    (amount as u32 * span as u32) / 255 + offset as u32
}

/// What a control does when it is turned, as plain values.
pub struct RotateBinding {
    pub template: Seq<char>,
    pub span: u16,
    pub offset: u16,
}

/// The bindings of a panel as plain values: one entry per control in each
/// of the two tables.
pub struct Bindings {
    pub clicks: Seq<Option<Seq<char>>>,
    pub rotates: Seq<Option<RotateBinding>>,
}

impl Bindings {
    /// Whether both tables have one entry per control.
    pub open spec fn wf(self) -> bool {
        self.clicks.len() == self.rotates.len()
    }

    /// The number of controls.
    pub open spec fn controls(self) -> nat {
        self.clicks.len()
    }

    /// The bindings of a panel with `controls` controls and nothing bound.
    pub open spec fn unbound(controls: nat) -> Bindings {
        Bindings {
            clicks: Seq::new(controls, |i: int| None::<Seq<char>>),
            rotates: Seq::new(controls, |i: int| None::<RotateBinding>),
        }
    }

    /// These bindings with `template` bound to presses of `control`; the
    /// same bindings where the panel has no such control.
    pub open spec fn with_click(self, control: int, template: Seq<char>) -> Bindings {
        if 0 <= control < self.clicks.len() {
            Bindings { clicks: self.clicks.update(control, Some(template)), rotates: self.rotates }
        } else {
            self
        }
    }

    /// These bindings with `template` and its range bound to turns of
    /// `control`; the same bindings where the panel has no such control.
    pub open spec fn with_rotate(
        self,
        control: int,
        template: Seq<char>,
        span: u16,
        offset: u16,
    ) -> Bindings {
        if 0 <= control < self.rotates.len() {
            Bindings {
                clicks: self.clicks,
                rotates: self.rotates.update(
                    control,
                    Some(RotateBinding { template, span, offset }),
                ),
            }
        } else {
            self
        }
    }

    /// The command line to run when `control` is pressed, if any.
    pub open spec fn click_command(self, control: int) -> Option<Seq<char>> {
        if 0 <= control < self.clicks.len() {
            self.clicks[control]
        } else {
            None
        }
    }

    /// The command line to run when `control` is turned by `amount`, if
    /// any.
    pub open spec fn rotate_command(self, control: int, amount: u8) -> Option<Seq<char>> {
        if 0 <= control < self.rotates.len() {
            match self.rotates[control] {
                Some(binding) => Some(
                    with_amount(binding.template, scaled(amount, binding.span, binding.offset)),
                ),
                None => None,
            }
        } else {
            None
        }
    }

    /// The command line to run for `event`, if any.
    pub open spec fn command_for(self, event: PanelEvent) -> Option<Seq<char>> {
        match event {
            PanelEvent::Rotate { control, amount } => self.rotate_command(control as int, amount),
            PanelEvent::Press { control } => self.click_command(control as int),
            PanelEvent::Release { control } => None,
            PanelEvent::Ignored => None,
        }
    }
}

/// A command template with the range that rotation is scaled to.
#[derive(Debug)]
pub struct RotateAction {
    command: TemplatedCommand,
    span: u16,
    offset: u16,
}

impl View for RotateAction {
    type V = RotateBinding;

    closed spec fn view(&self) -> RotateBinding {
        RotateBinding { template: self.command@, span: self.span, offset: self.offset }
    }
}

/// The bindings of a panel: two tables indexed by control.
#[derive(Debug)]
pub struct PanelHandler {
    click_callback_lookup: Vec<Option<TemplatedCommand>>,
    rotate_callback_lookup: Vec<Option<RotateAction>>,
}

impl View for PanelHandler {
    type V = Bindings;

    closed spec fn view(&self) -> Bindings {
        Bindings {
            clicks: Seq::new(
                self.click_callback_lookup@.len(),
                |i: int|
                    match self.click_callback_lookup@[i] {
                        Some(command) => Some(command@),
                        None => None,
                    },
            ),
            rotates: Seq::new(
                self.rotate_callback_lookup@.len(),
                |i: int|
                    match self.rotate_callback_lookup@[i] {
                        Some(action) => Some(action@),
                        None => None,
                    },
            ),
        }
    }
}

impl PanelHandler {
    /// The bindings of a panel with `buttons` controls, none of them bound.
    pub fn new(buttons: usize) -> (handler: Self)
        ensures
            handler@ == Bindings::unbound(buttons as nat),
            handler@.wf(),
    {
        let mut clicks: Vec<Option<TemplatedCommand>> = Vec::new();
        let mut rotates: Vec<Option<RotateAction>> = Vec::new();
        let mut i: usize = 0;
        while i < buttons
            invariant
                i <= buttons,
                clicks@.len() == i,
                rotates@.len() == i,
                forall|j: int| 0 <= j < i ==> clicks@[j] is None,
                forall|j: int| 0 <= j < i ==> rotates@[j] is None,
            decreases buttons - i,
        {
            clicks.push(None);
            rotates.push(None);
            i += 1;
        }
        let handler = Self { click_callback_lookup: clicks, rotate_callback_lookup: rotates };
        assert(handler@.clicks =~= Bindings::unbound(buttons as nat).clicks);
        assert(handler@.rotates =~= Bindings::unbound(buttons as nat).rotates);
        handler
    }

    /// The number of controls of the panel.
    pub fn controls(&self) -> (count: usize)
        ensures
            count == self@.controls(),
    {
        self.click_callback_lookup.len()
    }

    /// Binds `command` to presses of `button`, in place of what was bound
    /// before. Does nothing where the panel has no such control.
    pub fn register_click_command(&mut self, button: usize, command: String)
        ensures
            final(self)@ == old(self)@.with_click(button as int, command@),
            final(self)@.controls() == old(self)@.controls(),
            final(self)@.wf() == old(self)@.wf(),
    {
        if button < self.click_callback_lookup.len() {
            self.click_callback_lookup.set(button, Some(TemplatedCommand::new(command)));
            assert(self@.clicks =~= old(self)@.with_click(button as int, command@).clicks);
            assert(self@.rotates =~= old(self)@.rotates);
        }
    }

    /// Binds `command`, with the range of width `range` that starts at
    /// `offset`, to turns of `button`, in place of what was bound before.
    /// Does nothing where the panel has no such control.
    pub fn register_rotate_command(&mut self, button: usize, command: String, range: u16, offset: u16)
        ensures
            final(self)@ == old(self)@.with_rotate(button as int, command@, range, offset),
            final(self)@.controls() == old(self)@.controls(),
            final(self)@.wf() == old(self)@.wf(),
    {
        if button < self.rotate_callback_lookup.len() {
            let action = RotateAction {
                command: TemplatedCommand::new(command),
                span: range,
                offset,
            };
            self.rotate_callback_lookup.set(button, Some(action));
            assert(self@.rotates =~= old(self)@.with_rotate(
                button as int,
                command@,
                range,
                offset,
            ).rotates);
            assert(self@.clicks =~= old(self)@.clicks);
        }
    }

    /// The command line to run because `button` was pressed; `None` where
    /// nothing is bound to it or the panel has no such control.
    pub fn click(&self, button: usize) -> (line: Option<String>)
        ensures
            text_of(line) == self@.click_command(button as int),
    {
        if button < self.click_callback_lookup.len() {
            match &self.click_callback_lookup[button] {
                Some(command) => Some(command.command_line()),
                None => None,
            }
        } else {
            None
        }
    }

    /// The command line to run because `button` was turned by `amount`:
    /// the bound template with the scaled amount in place of its
    /// placeholder. `None` where nothing is bound to the control or the
    /// panel has no such control.
    pub fn rotate(&self, button: usize, amount: u8) -> (line: Option<String>)
        ensures
            text_of(line) == self@.rotate_command(button as int, amount),
    {
        if button < self.rotate_callback_lookup.len() {
            match &self.rotate_callback_lookup[button] {
                Some(action) => Some(
                    action.command.command_line_with_arg(
                        scale(amount, action.span, action.offset),
                    ),
                ),
                None => None,
            }
        } else {
            None
        }
    }

    /// The command line to run for `event`, if any.
    pub fn dispatch(&self, event: PanelEvent) -> (line: Option<String>)
        ensures
            text_of(line) == self@.command_for(event),
    {
        match event {
            PanelEvent::Rotate { control, amount } => self.rotate(control as usize, amount),
            PanelEvent::Press { control } => self.click(control as usize),
            PanelEvent::Release { control } => None,
            PanelEvent::Ignored => None,
        }
    }

    /// The command line to run for the report in `buffer`, of which the
    /// device filled the first `filled` bytes.
    pub fn handle_report(&self, buffer: &[u8], filled: usize) -> (line: Option<String>)
        ensures
            text_of(line) == self@.command_for(event_of(buffer@, filled as nat)),
            filled < 3 ==> line is None,
    {
        self.dispatch(decode_report(buffer, filled))
    }
}

/// Scaling never leaves the range: no turn gives less than the start of
/// the range, a turn of 255 gives its end, and a larger turn never gives
/// less than a smaller one.
pub proof fn lemma_scaled_within_range(low: u16, high: u16, amount: u8, larger: u8)
    requires
        low <= high,
        amount <= larger,
    ensures
        scaled(0, (high - low) as u16, low) == low,
        scaled(255, (high - low) as u16, low) == high,
        low <= scaled(amount, (high - low) as u16, low) <= scaled(larger, (high - low) as u16, low)
            <= high,
{
    let span = (high - low) as nat;
    assert(255 * span / 255 == span) by (nonlinear_arith);
    assert(amount as nat * span <= larger as nat * span <= 255 * span) by (nonlinear_arith)
        requires
            amount <= larger <= 255,
    ;
    assert(0 * span == 0) by (nonlinear_arith);
}

/// A turn of zero gives the offset, and a turn of 255 the offset plus the
/// span, whatever the two are.
pub proof fn lemma_scaled_endpoints(span: u16, offset: u16)
    ensures
        scaled(0, span, offset) == offset,
        scaled(255, span, offset) == span + offset,
{
    assert(255 * (span as nat) / 255 == span as nat) by (nonlinear_arith);
    assert(0 * (span as nat) == 0) by (nonlinear_arith);
}

/// Pressing or turning a control to which nothing is bound, or one that
/// the panel does not have, runs nothing.
pub proof fn lemma_unbound_runs_nothing(bindings: Bindings, control: int, amount: u8)
    ensures
        !(0 <= control < bindings.clicks.len()) || bindings.clicks[control] is None
            ==> bindings.click_command(control) is None,
        !(0 <= control < bindings.rotates.len()) || bindings.rotates[control] is None
            ==> bindings.rotate_command(control, amount) is None,
        Bindings::unbound(bindings.controls()).click_command(control) is None,
        Bindings::unbound(bindings.controls()).rotate_command(control, amount) is None,
{
}

/// Registering for a control that the panel does not have changes
/// nothing.
pub proof fn lemma_register_out_of_range(
    bindings: Bindings,
    control: int,
    template: Seq<char>,
    span: u16,
    offset: u16,
)
    requires
        bindings.wf(),
        control < 0 || control >= bindings.controls(),
    ensures
        bindings.with_click(control, template) == bindings,
        bindings.with_rotate(control, template, span, offset) == bindings,
{
}

/// Registering for a control that the panel has binds the command to it,
/// in place of what was bound before, keeps both tables' lengths and
/// leaves the other table, and the other controls, as they were.
pub proof fn lemma_register_binds(
    bindings: Bindings,
    control: int,
    template: Seq<char>,
    span: u16,
    offset: u16,
    other: int,
    amount: u8,
)
    requires
        bindings.wf(),
        0 <= control < bindings.controls(),
    ensures
        bindings.with_click(control, template).wf(),
        bindings.with_rotate(control, template, span, offset).wf(),
        bindings.with_click(control, template).controls() == bindings.controls(),
        bindings.with_rotate(control, template, span, offset).controls() == bindings.controls(),
        bindings.with_click(control, template).click_command(control) == Some(template),
        bindings.with_click(control, template).rotate_command(other, amount)
            == bindings.rotate_command(other, amount),
        other != control ==> bindings.with_click(control, template).click_command(other)
            == bindings.click_command(other),
        bindings.with_rotate(control, template, span, offset).rotate_command(control, amount)
            == Some(with_amount(template, scaled(amount, span, offset))),
        bindings.with_rotate(control, template, span, offset).click_command(other)
            == bindings.click_command(other),
        other != control ==> bindings.with_rotate(
            control,
            template,
            span,
            offset,
        ).rotate_command(other, amount) == bindings.rotate_command(other, amount),
{
}

/// A report of which fewer than three bytes were filled runs nothing, and
/// neither does the release of a button.
pub proof fn lemma_short_report_runs_nothing(bindings: Bindings, buffer: Seq<u8>, filled: nat)
    ensures
        filled < 3 || buffer.len() < 3 ==> bindings.command_for(event_of(buffer, filled)) is None,
        filled >= 3 && buffer.len() >= 3 && buffer[0] == 0x02 && buffer[2] == 0x00
            ==> bindings.command_for(event_of(buffer, filled)) is None,
        filled >= 3 && buffer.len() >= 3 && buffer[0] != 0x01 && buffer[0] != 0x02
            ==> bindings.command_for(event_of(buffer, filled)) is None,
{
}

} // verus!
