//! The question-and-answer dialogue that fills in a [`Config`], as a state
//! machine: the caller shows a prompt, reads a line, and hands it over.

use crate::config::{
    described, number_answer, optional_answer, yes_no_answer, Config, ConfigView, NumberAnswer,
    OptionalAnswer,
};
use crate::text::{chars_of, spells, trimmed};
use vstd::prelude::*;
use vstd::string::{StrSliceExecFns, StringExecFns};

verus! {

/// The question that the dialogue is at.
#[derive(Debug, Clone, Copy, PartialEq, Eq, Structural)]
pub enum Step {
    LengthChoice,
    ExactLength,
    MinLength,
    MaxLength,
    MinNumeric,
    MaxNumeric,
    MinLower,
    MaxLower,
    MinUpper,
    MaxUpper,
    MinSymbol,
    MaxSymbol,
    CustomSymbols,
    Symbols,
    ExcludeAmbiguous,
    Count,
    Save,
    SaveName,
    Done,
}

/// A dialogue in progress: the question it is at, the settings gathered so
/// far, and the name to save them under, once that was asked.
#[derive(Debug, Clone, PartialEq, Eq)]
pub struct Wizard {
    pub step: Step,
    pub config: Config,
    pub save_name: Option<String>,
}

/// What a [`Wizard`] holds.
pub struct WizardView {
    pub step: Step,
    pub config: ConfigView,
    pub save_name: Option<Seq<char>>,
}

impl View for Wizard {
    type V = WizardView;

    open spec fn view(&self) -> WizardView {
        WizardView {
            step: self.step,
            config: self.config@,
            save_name: match self.save_name {
                Some(name) => Some(name@),
                None => None,
            },
        }
    }
}

/// What is shown before the first question.
pub const INTRO: &'static str =
    "=== Password Generator Configuration Wizard ===\n\nPassword Length:\n  Choose an option:\n  1. Exact length (recommended)\n  2. Range (min to max)\n";

/// What is shown between the questions on length and those on the classes.
pub const CLASSES_HEADING: &'static str =
    "\nCharacter Type Requirements:\n  (Press Enter to skip any constraint)\n\n";

/// What is shown before the question on symbols.
pub const SYMBOLS_HEADING: &'static str =
    "\nSymbol Characters:\n  Default: !@#$%^&*()_+-=[]{}|;:,.<>?\n";

/// What is shown before the question on ambiguous characters.
pub const OPTIONS_HEADING: &'static str = "\nOptions:\n";

/// What is shown before the settings are summed up.
pub const SUMMARY_HEADING: &'static str = "\n=== Configuration Summary ===\n";

/// What is shown when an answer had to be a number and was none.
pub const RETRY_NUMBER: &'static str = "  Invalid number, please try again.\n";

/// What is shown when a number was asked for and none was given.
pub const NEED_NUMBER: &'static str = "  Please enter a number.\n";

/// What is shown when a number that may be skipped could not be read.
pub const SKIP_NUMBER: &'static str = "  Invalid number, skipping.\n";

/// What is shown when the answer names no option.
pub const RETRY_CHOICE: &'static str = "  Invalid choice, please try again.\n";

/// The prompt of each question; nothing once the dialogue is done.
pub open spec fn prompt_of(step: Step) -> Seq<char> {
    match step {
        Step::LengthChoice => "  Enter choice: "@,
        Step::ExactLength => "  Enter password length [16]: "@,
        Step::MinLength => "  Enter minimum length [12]: "@,
        Step::MaxLength => "  Enter maximum length [20]: "@,
        Step::MinNumeric => "  Minimum numeric characters (0-9): "@,
        Step::MaxNumeric => "  Maximum numeric characters (0-9): "@,
        Step::MinLower => "  Minimum lowercase letters (a-z): "@,
        Step::MaxLower => "  Maximum lowercase letters (a-z): "@,
        Step::MinUpper => "  Minimum uppercase letters (A-Z): "@,
        Step::MaxUpper => "  Maximum uppercase letters (A-Z): "@,
        Step::MinSymbol => "  Minimum symbol characters: "@,
        Step::MaxSymbol => "  Maximum symbol characters: "@,
        Step::CustomSymbols => "  Use custom symbols? (y/N): "@,
        Step::Symbols => "  Enter symbols to use: "@,
        Step::ExcludeAmbiguous => "  Exclude ambiguous characters (0/O, 1/l/I)? (y/N): "@,
        Step::Count => "  Number of passwords to generate [1]: "@,
        Step::Save => "Save this configuration? (y/N): "@,
        Step::SaveName => "  Configuration name (default): "@,
        Step::Done => Seq::<char>::empty(),
    }
}

/// The number that an empty answer stands for at a question for a number.
pub open spec fn default_of(step: Step) -> Option<usize> {
    match step {
        Step::ExactLength => Some(16usize),
        Step::MinLength => Some(12usize),
        Step::MaxLength => Some(20usize),
        Step::Count => Some(1usize),
        _ => None,
    }
}

/// The dialogue after a number was given at one of the questions that ask
/// for one, and what is shown next.
pub open spec fn with_number(w: WizardView, n: usize) -> (WizardView, Seq<char>) {
    match w.step {
        Step::ExactLength => (
            WizardView {
                step: Step::MinNumeric,
                config: ConfigView { length: Some(n), ..w.config },
                ..w
            },
            CLASSES_HEADING@,
        ),
        Step::MinLength => (
            WizardView {
                step: Step::MaxLength,
                config: ConfigView { min_length: Some(n), ..w.config },
                ..w
            },
            Seq::<char>::empty(),
        ),
        Step::MaxLength => (
            WizardView {
                step: Step::MinNumeric,
                config: ConfigView { max_length: Some(n), ..w.config },
                ..w
            },
            CLASSES_HEADING@,
        ),
        Step::Count => {
            let config = ConfigView { count: Some(n), ..w.config };
            (
                WizardView { step: Step::Save, config, ..w },
                SUMMARY_HEADING@ + described(config, None) + "\n"@,
            )
        },
        _ => (w, Seq::<char>::empty()),
    }
}

/// The dialogue after one of the eight bounds on the classes was given or
/// skipped, and what is shown next: a blank line after each class, and the
/// heading of the symbols after the last.
pub open spec fn with_bound(w: WizardView, bound: Option<usize>) -> (WizardView, Seq<char>) {
    match w.step {
        Step::MinNumeric => (
            WizardView {
                step: Step::MaxNumeric,
                config: ConfigView { min_numeric: bound, ..w.config },
                ..w
            },
            Seq::<char>::empty(),
        ),
        Step::MaxNumeric => (
            WizardView {
                step: Step::MinLower,
                config: ConfigView { max_numeric: bound, ..w.config },
                ..w
            },
            "\n"@,
        ),
        Step::MinLower => (
            WizardView {
                step: Step::MaxLower,
                config: ConfigView { min_lower: bound, ..w.config },
                ..w
            },
            Seq::<char>::empty(),
        ),
        Step::MaxLower => (
            WizardView {
                step: Step::MinUpper,
                config: ConfigView { max_lower: bound, ..w.config },
                ..w
            },
            "\n"@,
        ),
        Step::MinUpper => (
            WizardView {
                step: Step::MaxUpper,
                config: ConfigView { min_upper: bound, ..w.config },
                ..w
            },
            Seq::<char>::empty(),
        ),
        Step::MaxUpper => (
            WizardView {
                step: Step::MinSymbol,
                config: ConfigView { max_upper: bound, ..w.config },
                ..w
            },
            "\n"@,
        ),
        Step::MinSymbol => (
            WizardView {
                step: Step::MaxSymbol,
                config: ConfigView { min_symbol: bound, ..w.config },
                ..w
            },
            Seq::<char>::empty(),
        ),
        Step::MaxSymbol => (
            WizardView {
                step: Step::CustomSymbols,
                config: ConfigView { max_symbol: bound, ..w.config },
                ..w
            },
            SYMBOLS_HEADING@,
        ),
        _ => (w, Seq::<char>::empty()),
    }
}

/// The dialogue after `line` was answered to its question, and what is shown
/// before the next prompt. An answer that cannot be taken leaves the dialogue
/// at its question.
pub open spec fn answered(w: WizardView, line: Seq<char>) -> (WizardView, Seq<char>) {
    match w.step {
        Step::LengthChoice => if trimmed(line) == "1"@ {
            (WizardView { step: Step::ExactLength, ..w }, Seq::<char>::empty())
        } else if trimmed(line) == "2"@ {
            (WizardView { step: Step::MinLength, ..w }, Seq::<char>::empty())
        } else {
            (w, RETRY_CHOICE@)
        },
        Step::ExactLength | Step::MinLength | Step::MaxLength | Step::Count => match number_answer(
            line,
            default_of(w.step),
        ) {
            NumberAnswer::Value(n) => with_number(w, n),
            NumberAnswer::Missing => (w, NEED_NUMBER@),
            NumberAnswer::Invalid => (w, RETRY_NUMBER@),
        },
        Step::MinNumeric
        | Step::MaxNumeric
        | Step::MinLower
        | Step::MaxLower
        | Step::MinUpper
        | Step::MaxUpper
        | Step::MinSymbol
        | Step::MaxSymbol => match optional_answer(line) {
            OptionalAnswer::Value(n) => with_bound(w, Some(n)),
            OptionalAnswer::Skipped => with_bound(w, None),
            OptionalAnswer::Invalid => (
                with_bound(w, None).0,
                SKIP_NUMBER@ + with_bound(w, None).1,
            ),
        },
        Step::CustomSymbols => if yes_no_answer(line, false) {
            (WizardView { step: Step::Symbols, ..w }, Seq::<char>::empty())
        } else {
            (WizardView { step: Step::ExcludeAmbiguous, ..w }, OPTIONS_HEADING@)
        },
        Step::Symbols => (
            WizardView {
                step: Step::ExcludeAmbiguous,
                config: ConfigView { symbols: Some(trimmed(line)), ..w.config },
                ..w
            },
            OPTIONS_HEADING@,
        ),
        Step::ExcludeAmbiguous => (
            WizardView {
                step: Step::Count,
                config: ConfigView {
                    exclude_ambiguous: Some(yes_no_answer(line, false)),
                    ..w.config
                },
                ..w
            },
            "\n"@,
        ),
        Step::Save => if yes_no_answer(line, false) {
            (WizardView { step: Step::SaveName, ..w }, Seq::<char>::empty())
        } else {
            (WizardView { step: Step::Done, ..w }, Seq::<char>::empty())
        },
        Step::SaveName => (
            WizardView {
                step: Step::Done,
                save_name: if trimmed(line).len() == 0 {
                    None
                } else {
                    Some(trimmed(line))
                },
                ..w
            },
            Seq::<char>::empty(),
        ),
        Step::Done => (w, Seq::<char>::empty()),
    }
}

impl Wizard {
    /// A dialogue at its first question, with nothing set.
    pub fn new() -> (wizard: Wizard)
        ensures
            wizard@ == (WizardView {
                step: Step::LengthChoice,
                config: ConfigView::unset(),
                save_name: None,
            }),
    {
        Wizard { step: Step::LengthChoice, config: Config::default(), save_name: None }
    }

    /// Whether every question has been answered.
    pub fn is_done(&self) -> (done: bool)
        ensures
            done == (self.step == Step::Done),
    {
        match self.step {
            Step::Done => true,
            _ => false,
        }
    }

    /// The prompt of the question that the dialogue is at.
    pub fn prompt(&self) -> (out: String)
        ensures
            out@ == prompt_of(self.step),
    {
        proof {
            reveal_strlit("");
        }
        String::from_str(
            match self.step {
                Step::LengthChoice => "  Enter choice: ",
                Step::ExactLength => "  Enter password length [16]: ",
                Step::MinLength => "  Enter minimum length [12]: ",
                Step::MaxLength => "  Enter maximum length [20]: ",
                Step::MinNumeric => "  Minimum numeric characters (0-9): ",
                Step::MaxNumeric => "  Maximum numeric characters (0-9): ",
                Step::MinLower => "  Minimum lowercase letters (a-z): ",
                Step::MaxLower => "  Maximum lowercase letters (a-z): ",
                Step::MinUpper => "  Minimum uppercase letters (A-Z): ",
                Step::MaxUpper => "  Maximum uppercase letters (A-Z): ",
                Step::MinSymbol => "  Minimum symbol characters: ",
                Step::MaxSymbol => "  Maximum symbol characters: ",
                Step::CustomSymbols => "  Use custom symbols? (y/N): ",
                Step::Symbols => "  Enter symbols to use: ",
                Step::ExcludeAmbiguous => "  Exclude ambiguous characters (0/O, 1/l/I)? (y/N): ",
                Step::Count => "  Number of passwords to generate [1]: ",
                Step::Save => "Save this configuration? (y/N): ",
                Step::SaveName => "  Configuration name (default): ",
                Step::Done => "",
            },
        )
    }

    /// Takes a number at one of the questions that ask for one.
    fn take_number(&mut self, n: usize) -> (out: String)
        requires
            old(self).step == Step::ExactLength || old(self).step == Step::MinLength || old(
                self,
            ).step == Step::MaxLength || old(self).step == Step::Count,
        ensures
            (final(self)@, out@) == with_number(old(self)@, n),
    {
        match self.step {
            Step::ExactLength => {
                self.config.length = Some(n);
                self.step = Step::MinNumeric;
                String::from_str(CLASSES_HEADING)
            },
            Step::MinLength => {
                self.config.min_length = Some(n);
                self.step = Step::MaxLength;
                String::new()
            },
            Step::MaxLength => {
                self.config.max_length = Some(n);
                self.step = Step::MinNumeric;
                String::from_str(CLASSES_HEADING)
            },
            _ => {
                self.config.count = Some(n);
                self.step = Step::Save;
                let mut out = String::from_str(SUMMARY_HEADING);
                let summary = self.config.describe(None);
                out.append(summary.as_str());
                out.append("\n");
                out
            },
        }
    }

    /// Takes one of the eight bounds on the classes.
    fn take_bound(&mut self, bound: Option<usize>, out: &mut String)
        requires
            with_bound(old(self)@, bound).0.step != old(self).step,
        ensures
            final(self)@ == with_bound(old(self)@, bound).0,
            final(out)@ == old(out)@ + with_bound(old(self)@, bound).1,
    {
        match self.step {
            Step::MinNumeric => {
                self.config.min_numeric = bound;
                self.step = Step::MaxNumeric;
                assert(out@ + Seq::<char>::empty() =~= out@);
            },
            Step::MaxNumeric => {
                self.config.max_numeric = bound;
                self.step = Step::MinLower;
                out.append("\n");
            },
            Step::MinLower => {
                self.config.min_lower = bound;
                self.step = Step::MaxLower;
                assert(out@ + Seq::<char>::empty() =~= out@);
            },
            Step::MaxLower => {
                self.config.max_lower = bound;
                self.step = Step::MinUpper;
                out.append("\n");
            },
            Step::MinUpper => {
                self.config.min_upper = bound;
                self.step = Step::MaxUpper;
                assert(out@ + Seq::<char>::empty() =~= out@);
            },
            Step::MaxUpper => {
                self.config.max_upper = bound;
                self.step = Step::MinSymbol;
                out.append("\n");
            },
            Step::MinSymbol => {
                self.config.min_symbol = bound;
                self.step = Step::MaxSymbol;
                assert(out@ + Seq::<char>::empty() =~= out@);
            },
            _ => {
                self.config.max_symbol = bound;
                self.step = Step::CustomSymbols;
                out.append(SYMBOLS_HEADING);
            },
        }
    }

    /// Takes `line` as the answer to the question that the dialogue is at:
    /// the dialogue becomes [`answered`] of what it was, and the text that
    /// comes back is to be shown before the next prompt.
    pub fn answer(&mut self, line: &str) -> (out: String)
        ensures
            (final(self)@, out@) == answered(old(self)@, line@),
    {
        match self.step {
            Step::LengthChoice => {
                let options: [&str; 2] = ["1", "2"];
                assert(options@[0] == "1" && options@[1] == "2");
                match Config::read_choice(line, &options) {
                    Some(choice) => {
                        if spells(chars_of(choice.as_str()).as_slice(), "1") {
                            self.step = Step::ExactLength;
                        } else {
                            self.step = Step::MinLength;
                        }
                        String::new()
                    },
                    None => String::from_str(RETRY_CHOICE),
                }
            },
            Step::ExactLength => self.answer_number(line, Some(16)),
            Step::MinLength => self.answer_number(line, Some(12)),
            Step::MaxLength => self.answer_number(line, Some(20)),
            Step::Count => self.answer_number(line, Some(1)),
            Step::MinNumeric
            | Step::MaxNumeric
            | Step::MinLower
            | Step::MaxLower
            | Step::MinUpper
            | Step::MaxUpper
            | Step::MinSymbol
            | Step::MaxSymbol => {
                let mut out = String::new();
                assert(Seq::<char>::empty() + SKIP_NUMBER@ =~= SKIP_NUMBER@);
                match Config::read_optional_number(line) {
                    OptionalAnswer::Value(n) => {
                        self.take_bound(Some(n), &mut out);
                    },
                    OptionalAnswer::Skipped => {
                        self.take_bound(None, &mut out);
                    },
                    OptionalAnswer::Invalid => {
                        out.append(SKIP_NUMBER);
                        self.take_bound(None, &mut out);
                    },
                }
                out
            },
            Step::CustomSymbols => {
                if Config::read_yes_no(line, false) {
                    self.step = Step::Symbols;
                    String::new()
                } else {
                    self.step = Step::ExcludeAmbiguous;
                    String::from_str(OPTIONS_HEADING)
                }
            },
            Step::Symbols => {
                self.config.symbols = Some(Config::read_line(line));
                self.step = Step::ExcludeAmbiguous;
                String::from_str(OPTIONS_HEADING)
            },
            Step::ExcludeAmbiguous => {
                self.config.exclude_ambiguous = Some(Config::read_yes_no(line, false));
                self.step = Step::Count;
                String::from_str("\n")
            },
            Step::Save => {
                if Config::read_yes_no(line, false) {
                    self.step = Step::SaveName;
                } else {
                    self.step = Step::Done;
                }
                String::new()
            },
            Step::SaveName => {
                let name = Config::read_line(line);
                if name.as_str().unicode_len() == 0 {
                    self.save_name = None;
                } else {
                    self.save_name = Some(name);
                }
                self.step = Step::Done;
                String::new()
            },
            Step::Done => String::new(),
        }
    }

    /// Takes `line` at one of the questions that ask for a number.
    fn answer_number(&mut self, line: &str, default: Option<usize>) -> (out: String)
        requires
            old(self).step == Step::ExactLength || old(self).step == Step::MinLength || old(
                self,
            ).step == Step::MaxLength || old(self).step == Step::Count,
            default == default_of(old(self).step),
        ensures
            (final(self)@, out@) == answered(old(self)@, line@),
    {
        match Config::read_number(line, default) {
            NumberAnswer::Value(n) => self.take_number(n),
            NumberAnswer::Missing => String::from_str(NEED_NUMBER),
            NumberAnswer::Invalid => String::from_str(RETRY_NUMBER),
        }
    }
}

} // verus!
