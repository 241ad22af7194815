//! Saved settings: the text they are kept as, how command-line options
//! override them, and the constraints they stand for.

use crate::generator::PasswordConstraints;
use crate::text::{
    chars_of, decimal, find, first_index, parse_flag, parse_number, parsed_flag, parsed_number,
    push_decimal, says, spells, spells_loosely, string_of, trim, trimmed,
};
use vstd::prelude::*;
use vstd::string::StringExecFns;

verus! {

/// The symbol characters used where none are chosen.
pub const DEFAULT_SYMBOLS: &'static str = "!@#$%^&*()_+-=[]{}|;:,.<>?";

/// The password length used where none is chosen.
pub const DEFAULT_LENGTH: usize = 16;

/// Settings as they are saved and loaded; an absent field was never set.
#[derive(Debug, Clone, PartialEq, Eq)]
pub struct Config {
    pub min_numeric: Option<usize>,
    pub max_numeric: Option<usize>,
    pub min_lower: Option<usize>,
    pub max_lower: Option<usize>,
    pub min_upper: Option<usize>,
    pub max_upper: Option<usize>,
    pub min_symbol: Option<usize>,
    pub max_symbol: Option<usize>,
    pub length: Option<usize>,
    pub min_length: Option<usize>,
    pub max_length: Option<usize>,
    pub symbols: Option<String>,
    pub exclude_ambiguous: Option<bool>,
    pub count: Option<usize>,
}

/// What a [`Config`] holds, with the symbols as a sequence of characters.
pub struct ConfigView {
    pub min_numeric: Option<usize>,
    pub max_numeric: Option<usize>,
    pub min_lower: Option<usize>,
    pub max_lower: Option<usize>,
    pub min_upper: Option<usize>,
    pub max_upper: Option<usize>,
    pub min_symbol: Option<usize>,
    pub max_symbol: Option<usize>,
    pub length: Option<usize>,
    pub min_length: Option<usize>,
    pub max_length: Option<usize>,
    pub symbols: Option<Seq<char>>,
    pub exclude_ambiguous: Option<bool>,
    pub count: Option<usize>,
}

impl ConfigView {
    /// The settings with nothing set.
    pub open spec fn unset() -> ConfigView {
        ConfigView {
            min_numeric: None,
            max_numeric: None,
            min_lower: None,
            max_lower: None,
            min_upper: None,
            max_upper: None,
            min_symbol: None,
            max_symbol: None,
            length: None,
            min_length: None,
            max_length: None,
            symbols: None,
            exclude_ambiguous: None,
            count: None,
        }
    }
}

impl View for Config {
    type V = ConfigView;

    open spec fn view(&self) -> ConfigView {
        ConfigView {
            min_numeric: self.min_numeric,
            max_numeric: self.max_numeric,
            min_lower: self.min_lower,
            max_lower: self.max_lower,
            min_upper: self.min_upper,
            max_upper: self.max_upper,
            min_symbol: self.min_symbol,
            max_symbol: self.max_symbol,
            length: self.length,
            min_length: self.min_length,
            max_length: self.max_length,
            symbols: match self.symbols {
                Some(s) => Some(s@),
                None => None,
            },
            exclude_ambiguous: self.exclude_ambiguous,
            count: self.count,
        }
    }
}

impl Default for Config {
    /// The settings with nothing set.
    fn default() -> (config: Config)
        ensures
            config@ == ConfigView::unset(),
    {
        Config {
            min_numeric: None,
            max_numeric: None,
            min_lower: None,
            max_lower: None,
            min_upper: None,
            max_upper: None,
            min_symbol: None,
            max_symbol: None,
            length: None,
            min_length: None,
            max_length: None,
            symbols: None,
            exclude_ambiguous: None,
            count: None,
        }
    }
}

/// The options of one run as the command line gave them. `symbols` and
/// `count` always hold a value: the default where the option was not given.
#[derive(Debug, Clone, PartialEq, Eq)]
pub struct Cli {
    pub min_numeric: Option<usize>,
    pub max_numeric: Option<usize>,
    pub min_lower: Option<usize>,
    pub max_lower: Option<usize>,
    pub min_upper: Option<usize>,
    pub max_upper: Option<usize>,
    pub min_symbol: Option<usize>,
    pub max_symbol: Option<usize>,
    pub length: Option<usize>,
    pub min_length: Option<usize>,
    pub max_length: Option<usize>,
    pub symbols: String,
    pub exclude_ambiguous: bool,
    pub count: usize,
    pub config: Option<String>,
    pub save_config: Option<String>,
    pub list_configs: bool,
}

/// The saved value, overridden by the command line's where it gave one.
pub open spec fn overridden<T>(saved: Option<T>, given: Option<T>) -> Option<T> {
    if given is Some {
        given
    } else {
        saved
    }
}

/// The settings `saved` after the command line `cli` was laid over them.
/// An option that was given wins. Symbols that equal the default count as
/// not given, and so does a count of 1; either is taken only where nothing
/// was saved. The flag for ambiguous characters can switch exclusion on,
/// never off.
pub open spec fn merged(saved: ConfigView, cli: Cli) -> ConfigView {
    ConfigView {
        min_numeric: overridden(saved.min_numeric, cli.min_numeric),
        max_numeric: overridden(saved.max_numeric, cli.max_numeric),
        min_lower: overridden(saved.min_lower, cli.min_lower),
        max_lower: overridden(saved.max_lower, cli.max_lower),
        min_upper: overridden(saved.min_upper, cli.min_upper),
        max_upper: overridden(saved.max_upper, cli.max_upper),
        min_symbol: overridden(saved.min_symbol, cli.min_symbol),
        max_symbol: overridden(saved.max_symbol, cli.max_symbol),
        length: overridden(saved.length, cli.length),
        min_length: overridden(saved.min_length, cli.min_length),
        max_length: overridden(saved.max_length, cli.max_length),
        symbols: if cli.symbols@ != DEFAULT_SYMBOLS@ || saved.symbols is None {
            Some(cli.symbols@)
        } else {
            saved.symbols
        },
        exclude_ambiguous: if cli.exclude_ambiguous {
            Some(true)
        } else {
            saved.exclude_ambiguous
        },
        count: if cli.count != 1 || saved.count is None {
            Some(cli.count)
        } else {
            saved.count
        },
    }
}

/// The constraints that the settings stand for. An exact length sets both
/// length bounds; else the minimum is the one set, or 16, and the maximum the
/// one set, or the minimum. Symbols default to [`DEFAULT_SYMBOLS`], and
/// ambiguous characters stay in unless excluded.
pub open spec fn constraints_of(config: ConfigView, c: PasswordConstraints) -> bool {
    let min_length = match config.length {
        Some(n) => n,
        None => match config.min_length {
            Some(n) => n,
            None => DEFAULT_LENGTH,
        },
    };
    &&& c.min_numeric == config.min_numeric
    &&& c.max_numeric == config.max_numeric
    &&& c.min_lower == config.min_lower
    &&& c.max_lower == config.max_lower
    &&& c.min_upper == config.min_upper
    &&& c.max_upper == config.max_upper
    &&& c.min_symbol == config.min_symbol
    &&& c.max_symbol == config.max_symbol
    &&& c.min_length == min_length
    &&& c.max_length == match (config.length, config.max_length) {
        (Some(n), _) => n,
        (None, Some(n)) => n,
        (None, None) => min_length,
    }
    &&& c.symbols@ == match config.symbols {
        Some(symbols) => symbols,
        None => DEFAULT_SYMBOLS@,
    }
    &&& c.exclude_ambiguous == (config.exclude_ambiguous == Some(true))
}

/// What the answer to a question for a number comes to.
#[derive(Debug, Clone, Copy, PartialEq, Eq, Structural)]
pub enum NumberAnswer {
    /// The number that was typed, or the default for an empty answer.
    Value(usize),
    /// Nothing was typed and there is no default: the question is asked
    /// again.
    Missing,
    /// What was typed is no number: the question is asked again.
    Invalid,
}

/// What the answer to a question for a number that may be skipped comes to.
#[derive(Debug, Clone, Copy, PartialEq, Eq, Structural)]
pub enum OptionalAnswer {
    /// The number that was typed.
    Value(usize),
    /// Nothing was typed.
    Skipped,
    /// What was typed is no number; the question counts as skipped.
    Invalid,
}

/// What `line` answers to a question for a number.
pub open spec fn number_answer(line: Seq<char>, default: Option<usize>) -> NumberAnswer {
    let input = trimmed(line);
    if input.len() == 0 {
        match default {
            Some(n) => NumberAnswer::Value(n),
            None => NumberAnswer::Missing,
        }
    } else {
        match parsed_number(input) {
            Some(n) => NumberAnswer::Value(n),
            None => NumberAnswer::Invalid,
        }
    }
}

/// What `line` answers to a question for a number that may be skipped.
pub open spec fn optional_answer(line: Seq<char>) -> OptionalAnswer {
    let input = trimmed(line);
    if input.len() == 0 {
        OptionalAnswer::Skipped
    } else {
        match parsed_number(input) {
            Some(n) => OptionalAnswer::Value(n),
            None => OptionalAnswer::Invalid,
        }
    }
}

/// What `line` answers to a question for yes or no: `y` and `yes` say yes,
/// `n` and `no` say no, in any case of letters; anything else, the empty
/// answer too, leaves the default.
pub open spec fn yes_no_answer(line: Seq<char>, default: bool) -> bool {
    let input = trimmed(line);
    if spells_loosely(input, "y"@) || spells_loosely(input, "yes"@) {
        true
    } else if spells_loosely(input, "n"@) || spells_loosely(input, "no"@) {
        false
    } else {
        default
    }
}

/// Whether `line` names one of `options`.
pub open spec fn is_choice(line: Seq<char>, options: Seq<&str>) -> bool {
    exists|i: int| 0 <= i < options.len() && trimmed(line) == (#[trigger] options[i])@
}

/// `config` after the setting `key` was given `value`. A number or a truth
/// value that cannot be read clears the setting; an unknown key changes
/// nothing.
pub open spec fn assigned(config: ConfigView, key: Seq<char>, value: Seq<char>) -> ConfigView {
    if key == "min-numeric"@ {
        ConfigView { min_numeric: parsed_number(value), ..config }
    } else if key == "max-numeric"@ {
        ConfigView { max_numeric: parsed_number(value), ..config }
    } else if key == "min-lower"@ {
        ConfigView { min_lower: parsed_number(value), ..config }
    } else if key == "max-lower"@ {
        ConfigView { max_lower: parsed_number(value), ..config }
    } else if key == "min-upper"@ {
        ConfigView { min_upper: parsed_number(value), ..config }
    } else if key == "max-upper"@ {
        ConfigView { max_upper: parsed_number(value), ..config }
    } else if key == "min-symbol"@ {
        ConfigView { min_symbol: parsed_number(value), ..config }
    } else if key == "max-symbol"@ {
        ConfigView { max_symbol: parsed_number(value), ..config }
    } else if key == "length"@ {
        ConfigView { length: parsed_number(value), ..config }
    } else if key == "min-length"@ {
        ConfigView { min_length: parsed_number(value), ..config }
    } else if key == "max-length"@ {
        ConfigView { max_length: parsed_number(value), ..config }
    } else if key == "symbols"@ {
        ConfigView { symbols: Some(value), ..config }
    } else if key == "exclude-ambiguous"@ {
        ConfigView { exclude_ambiguous: parsed_flag(value), ..config }
    } else if key == "count"@ {
        ConfigView { count: parsed_number(value), ..config }
    } else {
        config
    }
}

/// `config` after one line of a settings file. Blank lines, lines that start
/// with `#` and lines without `=` change nothing. Any other line is a key,
/// the first `=`, and a value; white space around the line, the key and the
/// value does not count.
pub open spec fn applied(config: ConfigView, line: Seq<char>) -> ConfigView {
    let line = trimmed(line);
    if line.len() == 0 || line[0] == '#' {
        config
    } else {
        let eq = first_index(line, '=');
        if eq == line.len() {
            config
        } else {
            assigned(config, trimmed(line.take(eq)), trimmed(line.skip(eq + 1)))
        }
    }
}

/// `config` after the lines of `text`, taken from first to last. Lines end
/// at a line feed; the last line may go without.
pub open spec fn applied_all(config: ConfigView, text: Seq<char>) -> ConfigView
    decreases text.len(),
{
    if text.len() == 0 {
        config
    } else {
        let end = first_index(text, '\n');
        let next = applied(config, text.take(end));
        if 0 <= end < text.len() {
            applied_all(next, text.skip(end + 1))
        } else {
            next
        }
    }
}

/// The settings that a settings file holds.
pub open spec fn parsed(text: Seq<char>) -> ConfigView {
    applied_all(ConfigView::unset(), text)
}

/// The two comment lines and the blank line that a settings file opens with.
pub const FILE_HEADER: &'static str =
    "# genpass configuration file\n# Generated automatically - edit with caution\n\n";

/// The line that gives `key` the value `value`.
pub open spec fn entry(key: Seq<char>, value: Seq<char>) -> Seq<char> {
    key + "="@ + value + "\n"@
}

/// The line for a number, or nothing where it is not set.
pub open spec fn number_entry(key: Seq<char>, value: Option<usize>) -> Seq<char> {
    match value {
        Some(n) => entry(key, decimal(n as nat)),
        None => Seq::empty(),
    }
}

/// The line for a text, or nothing where it is not set.
pub open spec fn text_entry(key: Seq<char>, value: Option<Seq<char>>) -> Seq<char> {
    match value {
        Some(text) => entry(key, text),
        None => Seq::empty(),
    }
}

/// The line for a truth value, or nothing where it is not set.
pub open spec fn flag_entry(key: Seq<char>, value: Option<bool>) -> Seq<char> {
    match value {
        Some(true) => entry(key, "true"@),
        Some(false) => entry(key, "false"@),
        None => Seq::empty(),
    }
}

/// The settings file for `config`: the header, then one line for each
/// setting that is set, in a fixed order.
pub open spec fn rendered(config: ConfigView) -> Seq<char> {
    FILE_HEADER@ + number_entry("min-numeric"@, config.min_numeric) + number_entry(
        "max-numeric"@,
        config.max_numeric,
    ) + number_entry("min-lower"@, config.min_lower) + number_entry(
        "max-lower"@,
        config.max_lower,
    ) + number_entry("min-upper"@, config.min_upper) + number_entry(
        "max-upper"@,
        config.max_upper,
    ) + number_entry("min-symbol"@, config.min_symbol) + number_entry(
        "max-symbol"@,
        config.max_symbol,
    ) + number_entry("length"@, config.length) + number_entry("min-length"@, config.min_length)
        + number_entry("max-length"@, config.max_length) + text_entry("symbols"@, config.symbols)
        + flag_entry("exclude-ambiguous"@, config.exclude_ambiguous) + number_entry(
        "count"@,
        config.count,
    )
}

/// Appends the line that gives `key` the value `value`.
fn push_entry(out: &mut String, key: &str, value: &str)
    ensures
        final(out)@ == old(out)@ + entry(key@, value@),
{
    out.append(key);
    out.append("=");
    out.append(value);
    out.append("\n");
    assert(out@ =~= old(out)@ + entry(key@, value@));
}

/// Appends the line for a number, if it is set.
fn push_number_entry(out: &mut String, key: &str, value: Option<usize>)
    ensures
        final(out)@ == old(out)@ + number_entry(key@, value),
{
    match value {
        Some(n) => {
            out.append(key);
            out.append("=");
            push_decimal(out, n as u128);
            out.append("\n");
            assert(out@ =~= old(out)@ + number_entry(key@, value));
        },
        None => {
            assert(out@ =~= old(out)@ + number_entry(key@, value));
        },
    }
}

/// One line that says in words what the bounds of a class are.
pub open spec fn bounds_line(label: Seq<char>, min: Option<usize>, max: Option<usize>) -> Seq<
    char,
> {
    match (min, max) {
        (Some(lo), Some(hi)) => if lo == hi {
            label + ": exactly "@ + decimal(lo as nat) + "\n"@
        } else {
            label + ": "@ + decimal(lo as nat) + " to "@ + decimal(hi as nat) + "\n"@
        },
        (Some(lo), None) => label + ": minimum "@ + decimal(lo as nat) + "\n"@,
        (None, Some(hi)) => label + ": maximum "@ + decimal(hi as nat) + "\n"@,
        (None, None) => label + ": no constraint\n"@,
    }
}

/// The lines on the four classes.
pub open spec fn classes_section(config: ConfigView) -> Seq<char> {
    "Character Type Constraints:\n"@ + bounds_line(
        "  Numeric (0-9)"@,
        config.min_numeric,
        config.max_numeric,
    ) + bounds_line("  Lowercase (a-z)"@, config.min_lower, config.max_lower) + bounds_line(
        "  Uppercase (A-Z)"@,
        config.min_upper,
        config.max_upper,
    ) + bounds_line("  Symbols"@, config.min_symbol, config.max_symbol)
}

/// The lines on the password's length: the exact length where one is set,
/// else the minimum, or its default, and the maximum where one is set.
pub open spec fn length_section(config: ConfigView) -> Seq<char> {
    "Password Length:\n"@ + match config.length {
        Some(n) => "  Exact length: "@ + decimal(n as nat) + "\n"@,
        None => (match config.min_length {
            Some(n) => "  Minimum: "@ + decimal(n as nat) + "\n"@,
            None => "  Minimum: 16 (default)\n"@,
        }) + (match config.max_length {
            Some(n) => "  Maximum: "@ + decimal(n as nat) + "\n"@,
            None => Seq::empty(),
        }),
    }
}

/// The lines on the symbol characters.
pub open spec fn symbols_section(config: ConfigView) -> Seq<char> {
    "Symbol Characters:\n"@ + match config.symbols {
        Some(symbols) => "  "@ + symbols + "\n"@,
        None => "  !@#$%^&*()_+-=[]{}|;:,.<>? (default)\n"@,
    }
}

/// The lines on the remaining options.
pub open spec fn options_section(config: ConfigView) -> Seq<char> {
    "Options:\n"@ + (match config.exclude_ambiguous {
        Some(true) => "  Exclude ambiguous characters: yes\n"@,
        Some(false) => "  Exclude ambiguous characters: no\n"@,
        None => "  Exclude ambiguous characters: no (default)\n"@,
    }) + (match config.count {
        Some(n) => "  Password count: "@ + decimal(n as nat) + "\n"@,
        None => "  Password count: 1 (default)\n"@,
    })
}

/// The settings in words, under the name of the profile, `default` where
/// none is given: four sections with a blank line before each.
pub open spec fn described(config: ConfigView, name: Option<Seq<char>>) -> Seq<char> {
    "Configuration: "@ + (match name {
        Some(name) => name,
        None => "default"@,
    }) + "\n\n"@ + classes_section(config) + "\n"@ + length_section(config) + "\n"@
        + symbols_section(config) + "\n"@ + options_section(config)
}

/// Appends the line that says what the bounds of a class are.
fn push_bounds_line(out: &mut String, label: &str, min: Option<usize>, max: Option<usize>)
    ensures
        final(out)@ == old(out)@ + bounds_line(label@, min, max),
{
    out.append(label);
    match (min, max) {
        (Some(lo), Some(hi)) => {
            if lo == hi {
                out.append(": exactly ");
                push_decimal(out, lo as u128);
                out.append("\n");
            } else {
                out.append(": ");
                push_decimal(out, lo as u128);
                out.append(" to ");
                push_decimal(out, hi as u128);
                out.append("\n");
            }
        },
        (Some(lo), None) => {
            out.append(": minimum ");
            push_decimal(out, lo as u128);
            out.append("\n");
        },
        (None, Some(hi)) => {
            out.append(": maximum ");
            push_decimal(out, hi as u128);
            out.append("\n");
        },
        (None, None) => {
            out.append(": no constraint\n");
        },
    }
    assert(out@ =~= old(out)@ + bounds_line(label@, min, max));
}

/// Appends `label`, the number and a line feed.
fn push_number_line(out: &mut String, label: &str, n: usize)
    ensures
        final(out)@ == old(out)@ + (label@ + decimal(n as nat) + "\n"@),
{
    out.append(label);
    push_decimal(out, n as u128);
    out.append("\n");
    assert(out@ =~= old(out)@ + (label@ + decimal(n as nat) + "\n"@));
}

/// The saved number, or the one that the command line gave.
fn or_given(saved: Option<usize>, given: Option<usize>) -> (out: Option<usize>)
    ensures
        out == overridden(saved, given),
{
    if given.is_some() {
        given
    } else {
        saved
    }
}

impl Config {
    /// Gives the setting `key` the value `value`.
    fn assign(&mut self, key: &[char], value: &[char])
        ensures
            final(self)@ == assigned(old(self)@, key@, value@),
    {
        if spells(key, "min-numeric") {
            self.min_numeric = parse_number(value);
        } else if spells(key, "max-numeric") {
            self.max_numeric = parse_number(value);
        } else if spells(key, "min-lower") {
            self.min_lower = parse_number(value);
        } else if spells(key, "max-lower") {
            self.max_lower = parse_number(value);
        } else if spells(key, "min-upper") {
            self.min_upper = parse_number(value);
        } else if spells(key, "max-upper") {
            self.max_upper = parse_number(value);
        } else if spells(key, "min-symbol") {
            self.min_symbol = parse_number(value);
        } else if spells(key, "max-symbol") {
            self.max_symbol = parse_number(value);
        } else if spells(key, "length") {
            self.length = parse_number(value);
        } else if spells(key, "min-length") {
            self.min_length = parse_number(value);
        } else if spells(key, "max-length") {
            self.max_length = parse_number(value);
        } else if spells(key, "symbols") {
            self.symbols = Some(string_of(value));
        } else if spells(key, "exclude-ambiguous") {
            self.exclude_ambiguous = parse_flag(value);
        } else if spells(key, "count") {
            self.count = parse_number(value);
        }
    }

    /// Takes one line of a settings file into the settings.
    fn apply_line(&mut self, line: &[char])
        ensures
            final(self)@ == applied(old(self)@, line@),
    {
        let line = trim(line);
        if line.len() == 0 || line[0] == '#' {
            return ;
        }
        let eq: usize = find(line, '=');
        if eq == line.len() {
            return ;
        }
        let key = trim(vstd::slice::slice_subrange(line, 0, eq));
        let value = trim(vstd::slice::slice_subrange(line, eq + 1, line.len()));
        self.assign(key, value);
    }

    /// Writes the settings as a settings file: the text [`rendered`] of them.
    pub fn render(&self) -> (out: String)
        ensures
            out@ == rendered(self@),
    {
        let mut out = String::from_str(FILE_HEADER);
        push_number_entry(&mut out, "min-numeric", self.min_numeric);
        push_number_entry(&mut out, "max-numeric", self.max_numeric);
        push_number_entry(&mut out, "min-lower", self.min_lower);
        push_number_entry(&mut out, "max-lower", self.max_lower);
        push_number_entry(&mut out, "min-upper", self.min_upper);
        push_number_entry(&mut out, "max-upper", self.max_upper);
        push_number_entry(&mut out, "min-symbol", self.min_symbol);
        push_number_entry(&mut out, "max-symbol", self.max_symbol);
        push_number_entry(&mut out, "length", self.length);
        push_number_entry(&mut out, "min-length", self.min_length);
        push_number_entry(&mut out, "max-length", self.max_length);
        match &self.symbols {
            Some(symbols) => {
                push_entry(&mut out, "symbols", symbols.as_str());
            },
            None => {
                assert(out@ + Seq::<char>::empty() =~= out@);
            },
        }
        match self.exclude_ambiguous {
            Some(true) => {
                push_entry(&mut out, "exclude-ambiguous", "true");
            },
            Some(false) => {
                push_entry(&mut out, "exclude-ambiguous", "false");
            },
            None => {
                assert(out@ + Seq::<char>::empty() =~= out@);
            },
        }
        push_number_entry(&mut out, "count", self.count);
        out
    }

    /// Appends the lines on the four classes.
    fn push_classes_section(&self, out: &mut String)
        ensures
            final(out)@ == old(out)@ + classes_section(self@),
    {
        out.append("Character Type Constraints:\n");
        push_bounds_line(out, "  Numeric (0-9)", self.min_numeric, self.max_numeric);
        push_bounds_line(out, "  Lowercase (a-z)", self.min_lower, self.max_lower);
        push_bounds_line(out, "  Uppercase (A-Z)", self.min_upper, self.max_upper);
        push_bounds_line(out, "  Symbols", self.min_symbol, self.max_symbol);
        assert(out@ =~= old(out)@ + classes_section(self@));
    }

    /// Appends the lines on the password's length.
    fn push_length_section(&self, out: &mut String)
        ensures
            final(out)@ == old(out)@ + length_section(self@),
    {
        out.append("Password Length:\n");
        match self.length {
            Some(n) => {
                push_number_line(out, "  Exact length: ", n);
            },
            None => {
                match self.min_length {
                    Some(n) => {
                        push_number_line(out, "  Minimum: ", n);
                    },
                    None => {
                        out.append("  Minimum: 16 (default)\n");
                    },
                }
                match self.max_length {
                    Some(n) => {
                        push_number_line(out, "  Maximum: ", n);
                    },
                    None => {},
                }
            },
        }
        assert(out@ =~= old(out)@ + length_section(self@));
    }

    /// Appends the lines on the symbol characters.
    fn push_symbols_section(&self, out: &mut String)
        ensures
            final(out)@ == old(out)@ + symbols_section(self@),
    {
        out.append("Symbol Characters:\n");
        match &self.symbols {
            Some(symbols) => {
                out.append("  ");
                out.append(symbols.as_str());
                out.append("\n");
            },
            None => {
                out.append("  !@#$%^&*()_+-=[]{}|;:,.<>? (default)\n");
            },
        }
        assert(out@ =~= old(out)@ + symbols_section(self@));
    }

    /// Appends the lines on the remaining options.
    fn push_options_section(&self, out: &mut String)
        ensures
            final(out)@ == old(out)@ + options_section(self@),
    {
        out.append("Options:\n");
        match self.exclude_ambiguous {
            Some(true) => {
                out.append("  Exclude ambiguous characters: yes\n");
            },
            Some(false) => {
                out.append("  Exclude ambiguous characters: no\n");
            },
            None => {
                out.append("  Exclude ambiguous characters: no (default)\n");
            },
        }
        match self.count {
            Some(n) => {
                push_number_line(out, "  Password count: ", n);
            },
            None => {
                out.append("  Password count: 1 (default)\n");
            },
        }
        assert(out@ =~= old(out)@ + options_section(self@));
    }

    /// Says the settings in words: the text [`described`] of them, ready to
    /// be shown under the profile's name.
    pub fn describe(&self, name: Option<&str>) -> (out: String)
        ensures
            out@ == described(
                self@,
                match name {
                    Some(name) => Some(name@),
                    None => None,
                },
            ),
    {
        let mut out = String::from_str("Configuration: ");
        match name {
            Some(name) => {
                out.append(name);
            },
            None => {
                out.append("default");
            },
        }
        out.append("\n\n");
        self.push_classes_section(&mut out);
        out.append("\n");
        self.push_length_section(&mut out);
        out.append("\n");
        self.push_symbols_section(&mut out);
        out.append("\n");
        self.push_options_section(&mut out);
        out
    }

    /// Lays the command line over the settings: they become [`merged`] of
    /// what they were and `cli`.
    pub fn merge_with_cli(&mut self, cli: &Cli)
        ensures
            final(self)@ == merged(old(self)@, *cli),
    {
        self.min_numeric = or_given(self.min_numeric, cli.min_numeric);
        self.max_numeric = or_given(self.max_numeric, cli.max_numeric);
        self.min_lower = or_given(self.min_lower, cli.min_lower);
        self.max_lower = or_given(self.max_lower, cli.max_lower);
        self.min_upper = or_given(self.min_upper, cli.min_upper);
        self.max_upper = or_given(self.max_upper, cli.max_upper);
        self.min_symbol = or_given(self.min_symbol, cli.min_symbol);
        self.max_symbol = or_given(self.max_symbol, cli.max_symbol);
        self.length = or_given(self.length, cli.length);
        self.min_length = or_given(self.min_length, cli.min_length);
        self.max_length = or_given(self.max_length, cli.max_length);
        // Symbols equal to the default cannot be told from symbols not given.
        let given: bool = !spells(chars_of(cli.symbols.as_str()).as_slice(), DEFAULT_SYMBOLS);
        if given || self.symbols.is_none() {
            self.symbols = Some(cli.symbols.clone());
        }
        if cli.exclude_ambiguous {
            self.exclude_ambiguous = Some(true);
        }
        if cli.count != 1 || self.count.is_none() {
            self.count = Some(cli.count);
        }
    }

    /// The constraints that the settings stand for.
    pub fn to_constraints(&self) -> (c: PasswordConstraints)
        ensures
            constraints_of(self@, c),
    {
        let min_length: usize = match self.length {
            Some(n) => n,
            None => match self.min_length {
                Some(n) => n,
                None => DEFAULT_LENGTH,
            },
        };
        let max_length: usize = match (self.length, self.max_length) {
            (Some(n), _) => n,
            (None, Some(n)) => n,
            (None, None) => min_length,
        };
        let symbols: String = match &self.symbols {
            Some(symbols) => symbols.clone(),
            None => String::from_str(DEFAULT_SYMBOLS),
        };
        PasswordConstraints {
            min_numeric: self.min_numeric,
            max_numeric: self.max_numeric,
            min_lower: self.min_lower,
            max_lower: self.max_lower,
            min_upper: self.min_upper,
            max_upper: self.max_upper,
            min_symbol: self.min_symbol,
            max_symbol: self.max_symbol,
            min_length,
            max_length,
            symbols,
            exclude_ambiguous: match self.exclude_ambiguous {
                Some(b) => b,
                None => false,
            },
        }
    }

    /// How many passwords to generate: the count that is set, or one.
    pub fn password_count(&self) -> (n: usize)
        ensures
            n == match self.count {
                Some(n) => n,
                None => 1usize,
            },
    {
        match self.count {
            Some(n) => n,
            None => 1,
        }
    }

    /// What was typed on `line`: the line without the white space around it.
    pub fn read_line(line: &str) -> (input: String)
        ensures
            input@ == trimmed(line@),
    {
        let text = chars_of(line);
        string_of(trim(text.as_slice()))
    }

    /// Takes `line` as the answer to a question for a number.
    pub fn read_number(line: &str, default: Option<usize>) -> (answer: NumberAnswer)
        ensures
            answer == number_answer(line@, default),
    {
        let text = chars_of(line);
        let input = trim(text.as_slice());
        if input.len() == 0 {
            match default {
                Some(n) => NumberAnswer::Value(n),
                None => NumberAnswer::Missing,
            }
        } else {
            match parse_number(input) {
                Some(n) => NumberAnswer::Value(n),
                None => NumberAnswer::Invalid,
            }
        }
    }

    /// Takes `line` as the answer to a question for a number that may be
    /// skipped.
    pub fn read_optional_number(line: &str) -> (answer: OptionalAnswer)
        ensures
            answer == optional_answer(line@),
    {
        let text = chars_of(line);
        let input = trim(text.as_slice());
        if input.len() == 0 {
            OptionalAnswer::Skipped
        } else {
            match parse_number(input) {
                Some(n) => OptionalAnswer::Value(n),
                None => OptionalAnswer::Invalid,
            }
        }
    }

    /// Takes `line` as the answer to a question for yes or no.
    pub fn read_yes_no(line: &str, default: bool) -> (answer: bool)
        ensures
            answer == yes_no_answer(line@, default),
    {
        let text = chars_of(line);
        let input = trim(text.as_slice());
        if says(input, "y") || says(input, "yes") {
            true
        } else if says(input, "n") || says(input, "no") {
            false
        } else {
            default
        }
    }

    /// Takes `line` as a choice among `options`: the option that it names,
    /// or nothing where it names none and the question is asked again.
    pub fn read_choice(line: &str, options: &[&str]) -> (choice: Option<String>)
        ensures
            choice is Some <==> is_choice(line@, options@),
            choice matches Some(c) ==> c@ == trimmed(line@),
    {
        let text = chars_of(line);
        let input = trim(text.as_slice());
        let mut i: usize = 0;
        while i < options.len()
            invariant
                i <= options@.len(),
                input@ == trimmed(line@),
                forall|k: int| 0 <= k < i ==> input@ != (#[trigger] options@[k])@,
            decreases options@.len() - i,
        {
            if spells(input, options[i]) {
                return Some(string_of(input));
            }
            i += 1;
        }
        None
    }

    /// Reads a settings file: the settings [`parsed`] from `content`.
    /// Every text is a settings file; what cannot be read is passed over.
    pub fn parse(content: &str) -> (config: Config)
        ensures
            config@ == parsed(content@),
    {
        let text = chars_of(content);
        let mut config = Config::default();
        let mut pos: usize = 0;
        assert(text@.skip(0) =~= text@);
        while pos < text.len()
            invariant
                pos <= text@.len(),
                text@ == content@,
                applied_all(config@, text@.skip(pos as int)) == parsed(content@),
            decreases text@.len() - pos,
        {
            let rest = vstd::slice::slice_subrange(text.as_slice(), pos, text.len());
            let end: usize = find(rest, '\n');
            config.apply_line(vstd::slice::slice_subrange(rest, 0, end));
            assert(rest@ =~= text@.skip(pos as int));
            if end < rest.len() {
                assert(rest@.skip(end + 1) =~= text@.skip(pos + end + 1));
                pos = pos + end + 1;
            } else {
                pos = text.len();
            }
        }
        config
    }
}

} // verus!
