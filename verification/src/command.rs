//! Command templates: a shell command line with an optional `{amount}`
//! placeholder for a number.

use crate::text::{chars_of, decimal_text, push_decimal, replace_all, string_of, substitute};
use vstd::prelude::*;

verus! {

/// `template` with every `{amount}` replaced by the decimal text of
/// `amount`.
pub open spec fn with_amount(template: Seq<char>, amount: nat) -> Seq<char> {
    replace_all(template, "{amount}"@, decimal_text(amount))
}

/// A command line that may hold the placeholder `{amount}`.
#[derive(Debug)]
pub struct TemplatedCommand {
    command: String,
}

impl View for TemplatedCommand {
    type V = Seq<char>;

    closed spec fn view(&self) -> Seq<char> {
        self.command@
    }
}

impl TemplatedCommand {
    /// The template with the text `command`.
    pub fn new(command: String) -> (template: Self)
        ensures
            template@ == command@,
    {
        Self { command }
    }

    /// The command line to run when no number is at hand: the template as
    /// it stands.
    pub fn command_line(&self) -> (line: String)
        ensures
            line@ == self@,
    {
        self.command.clone()
    }

    /// The command line to run for `amount`: the template with every
    /// placeholder replaced by the number.
    pub fn command_line_with_arg(&self, amount: u32) -> (line: String)
        ensures
            line@ == with_amount(self@, amount as nat),
    {
        let template: Vec<char> = chars_of(self.command.as_str());
        let placeholder: Vec<char> = chars_of("{amount}");
        let mut number: Vec<char> = Vec::new();
        push_decimal(&mut number, amount);
        assert(number@ =~= decimal_text(amount as nat));
        let line: Vec<char> = substitute(&template, &placeholder, &number);
        string_of(&line)
    }
}

} // verus!
