//! Constraints on a password and the generator that realises them.

use crate::random::{draw, shuffle_down, Entropy, RandomError, SecureRandom};
use crate::text::{chars_of, decimal, push_decimal, string_of};
use vstd::prelude::*;
use vstd::string::{StrSliceExecFns, StringExecFns};

verus! {

/// The lowercase letters.
pub const LOWERCASE: &'static str = "abcdefghijklmnopqrstuvwxyz";

/// The uppercase letters.
pub const UPPERCASE: &'static str = "ABCDEFGHIJKLMNOPQRSTUVWXYZ";

/// The digits.
pub const NUMERIC: &'static str = "0123456789";

/// One of the four kinds of character that a password is made of.
#[derive(Debug, Clone, Copy, PartialEq, Eq, Structural)]
pub enum CharClass {
    Numeric,
    Lowercase,
    Uppercase,
    Symbol,
}

/// Whether `c` is easily mistaken for another character: one of `0 O 1 l I |`.
pub open spec fn is_ambiguous(c: char) -> bool {
    c == '0' || c == 'O' || c == '1' || c == 'l' || c == 'I' || c == '|'
}

/// Decides [`is_ambiguous`].
pub fn ambiguous(c: char) -> (b: bool)
    ensures
        b == is_ambiguous(c),
{
    c == '0' || c == 'O' || c == '1' || c == 'l' || c == 'I' || c == '|'
}

/// What the caller asks of a password: how many characters of each class it
/// may hold, how long it may be, and which characters stand for symbols.
/// An absent bound leaves that side open.
#[derive(Debug, Clone, PartialEq, Eq)]
pub struct PasswordConstraints {
    pub min_numeric: Option<usize>,
    pub max_numeric: Option<usize>,
    pub min_lower: Option<usize>,
    pub max_lower: Option<usize>,
    pub min_upper: Option<usize>,
    pub max_upper: Option<usize>,
    pub min_symbol: Option<usize>,
    pub max_symbol: Option<usize>,
    pub min_length: usize,
    pub max_length: usize,
    pub symbols: String,
    pub exclude_ambiguous: bool,
}

/// The rule that a set of constraints breaks.
#[derive(Debug, Clone, Copy, PartialEq, Eq, Structural)]
pub enum ValidationError {
    /// The class's minimum is greater than its maximum.
    MinAboveMax(CharClass),
    /// `min_length` is greater than `max_length`.
    LengthBoundsReversed,
    /// The class minimums add up to `required`, more than `max_length`.
    MinimumsExceedMaxLength { required: u128, max_length: usize },
    /// The class minimums add up to `required`, more than `min_length`.
    MinimumsExceedMinLength { required: u128, min_length: usize },
}

/// The name of the setting that holds the minimum of `class`.
pub open spec fn min_name(class: CharClass) -> Seq<char> {
    match class {
        CharClass::Numeric => "min_numeric"@,
        CharClass::Lowercase => "min_lower"@,
        CharClass::Uppercase => "min_upper"@,
        CharClass::Symbol => "min_symbol"@,
    }
}

/// The name of the setting that holds the maximum of `class`.
pub open spec fn max_name(class: CharClass) -> Seq<char> {
    match class {
        CharClass::Numeric => "max_numeric"@,
        CharClass::Lowercase => "max_lower"@,
        CharClass::Uppercase => "max_upper"@,
        CharClass::Symbol => "max_symbol"@,
    }
}

impl ValidationError {
    /// The broken rule in words.
    pub open spec fn text(self) -> Seq<char> {
        match self {
            ValidationError::MinAboveMax(class) => min_name(class) + " cannot be greater than "@
                + max_name(class),
            ValidationError::LengthBoundsReversed => "min_length cannot be greater than max_length"@,
            ValidationError::MinimumsExceedMaxLength { required, max_length } =>
                "Sum of minimum character requirements ("@ + decimal(required as nat)
                    + ") exceeds maximum length ("@ + decimal(max_length as nat) + ")"@,
            ValidationError::MinimumsExceedMinLength { required, min_length } =>
                "Sum of minimum character requirements ("@ + decimal(required as nat)
                    + ") exceeds minimum length ("@ + decimal(min_length as nat) + ")"@,
        }
    }

    /// Says the broken rule in words.
    pub fn message(&self) -> (out: String)
        ensures
            out@ == self.text(),
    {
        match *self {
            ValidationError::MinAboveMax(class) => {
                let (min, max): (&str, &str) = match class {
                    CharClass::Numeric => ("min_numeric", "max_numeric"),
                    CharClass::Lowercase => ("min_lower", "max_lower"),
                    CharClass::Uppercase => ("min_upper", "max_upper"),
                    CharClass::Symbol => ("min_symbol", "max_symbol"),
                };
                let mut out = String::from_str(min);
                out.append(" cannot be greater than ");
                out.append(max);
                out
            },
            ValidationError::LengthBoundsReversed => String::from_str(
                "min_length cannot be greater than max_length",
            ),
            ValidationError::MinimumsExceedMaxLength { required, max_length } => {
                let mut out = String::from_str("Sum of minimum character requirements (");
                push_decimal(&mut out, required);
                out.append(") exceeds maximum length (");
                push_decimal(&mut out, max_length as u128);
                out.append(")");
                out
            },
            ValidationError::MinimumsExceedMinLength { required, min_length } => {
                let mut out = String::from_str("Sum of minimum character requirements (");
                push_decimal(&mut out, required);
                out.append(") exceeds minimum length (");
                push_decimal(&mut out, min_length as u128);
                out.append(")");
                out
            },
        }
    }
}

impl PasswordConstraints {
    /// The least count asked of `class`, if any.
    pub open spec fn min_of(&self, class: CharClass) -> Option<usize> {
        match class {
            CharClass::Numeric => self.min_numeric,
            CharClass::Lowercase => self.min_lower,
            CharClass::Uppercase => self.min_upper,
            CharClass::Symbol => self.min_symbol,
        }
    }

    /// The greatest count allowed of `class`, if any.
    pub open spec fn max_of(&self, class: CharClass) -> Option<usize> {
        match class {
            CharClass::Numeric => self.max_numeric,
            CharClass::Lowercase => self.max_lower,
            CharClass::Uppercase => self.max_upper,
            CharClass::Symbol => self.max_symbol,
        }
    }

    /// The count that `class` starts from: its minimum, or zero.
    pub open spec fn floor(&self, class: CharClass) -> nat {
        match self.min_of(class) {
            Some(n) => n as nat,
            None => 0,
        }
    }

    /// The sum of the four minimums.
    pub open spec fn required(&self) -> nat {
        self.floor(CharClass::Numeric) + self.floor(CharClass::Lowercase) + self.floor(
            CharClass::Uppercase,
        ) + self.floor(CharClass::Symbol)
    }

    /// Whether `class` has a minimum above its maximum.
    pub open spec fn min_above_max(&self, class: CharClass) -> bool {
        match (self.min_of(class), self.max_of(class)) {
            (Some(min), Some(max)) => min > max,
            _ => false,
        }
    }

    /// Whether some password can meet the minimums and the length bounds: no
    /// class has its minimum above its maximum, the length bounds are in
    /// order, and the minimums together fit in the shortest length.
    pub open spec fn is_feasible(&self) -> bool {
        &&& !self.min_above_max(CharClass::Numeric)
        &&& !self.min_above_max(CharClass::Lowercase)
        &&& !self.min_above_max(CharClass::Uppercase)
        &&& !self.min_above_max(CharClass::Symbol)
        &&& self.min_length <= self.max_length
        &&& self.required() <= self.min_length
    }

    /// The first rule that is broken, in the order in which they are checked:
    /// the classes' bounds (numeric, lowercase, uppercase, symbol), then the
    /// length bounds, then the minimums against the longest and against the
    /// shortest length.
    pub open spec fn violation(&self) -> Option<ValidationError> {
        if self.min_above_max(CharClass::Numeric) {
            Some(ValidationError::MinAboveMax(CharClass::Numeric))
        } else if self.min_above_max(CharClass::Lowercase) {
            Some(ValidationError::MinAboveMax(CharClass::Lowercase))
        } else if self.min_above_max(CharClass::Uppercase) {
            Some(ValidationError::MinAboveMax(CharClass::Uppercase))
        } else if self.min_above_max(CharClass::Symbol) {
            Some(ValidationError::MinAboveMax(CharClass::Symbol))
        } else if self.min_length > self.max_length {
            Some(ValidationError::LengthBoundsReversed)
        } else if self.required() > self.max_length {
            Some(
                ValidationError::MinimumsExceedMaxLength {
                    required: self.required() as u128,
                    max_length: self.max_length,
                },
            )
        } else if self.required() > self.min_length {
            Some(
                ValidationError::MinimumsExceedMinLength {
                    required: self.required() as u128,
                    min_length: self.min_length,
                },
            )
        } else {
            None
        }
    }

    /// The composition that generation starts from: every class at its
    /// minimum.
    pub open spec fn floors(&self) -> Composition {
        Composition {
            numeric: self.floor(CharClass::Numeric),
            lowercase: self.floor(CharClass::Lowercase),
            uppercase: self.floor(CharClass::Uppercase),
            symbol: self.floor(CharClass::Symbol),
        }
    }

    /// Whether `class` may take one more character on top of `counts`.
    pub open spec fn has_room(&self, counts: Composition, class: CharClass) -> bool {
        match self.max_of(class) {
            Some(max) => counts.of(class) < max,
            None => true,
        }
    }

    /// Whether `n` characters of `class` lie within its bounds.
    pub open spec fn count_allowed(&self, class: CharClass, n: nat) -> bool {
        &&& self.floor(class) <= n
        &&& match self.max_of(class) {
            Some(max) => n <= max,
            None => true,
        }
    }

    /// Whether every class's count lies within its bounds.
    pub open spec fn allows(&self, counts: Composition) -> bool {
        &&& self.count_allowed(CharClass::Numeric, counts.numeric)
        &&& self.count_allowed(CharClass::Lowercase, counts.lowercase)
        &&& self.count_allowed(CharClass::Uppercase, counts.uppercase)
        &&& self.count_allowed(CharClass::Symbol, counts.symbol)
    }

    /// The most characters that the maximums admit; `None` where a class has
    /// no maximum.
    pub open spec fn capacity(&self) -> Option<nat> {
        match (self.max_numeric, self.max_lower, self.max_upper, self.max_symbol) {
            (Some(n), Some(l), Some(u), Some(s)) => Some((n + l + u + s) as nat),
            _ => None,
        }
    }

    /// Whether a password of `length` characters can keep every class within
    /// its bounds.
    pub open spec fn admits_length(&self, length: nat) -> bool {
        &&& self.required() <= length
        &&& match self.capacity() {
            Some(most) => length <= most,
            None => true,
        }
    }

    /// Whether the sampler's 32-bit draws can serve these constraints.
    pub fn within_sampler_range(&self) -> (b: bool)
        ensures
            b == in_sampler_range(*self),
    {
        self.max_length < u32::MAX as usize && self.symbols.as_str().unicode_len()
            <= u32::MAX as usize
    }

    /// Checks the constraints for feasibility and names the first broken rule.
    pub fn validate(&self) -> (res: Result<(), ValidationError>)
        ensures
            res == match self.violation() {
                Some(e) => Err::<(), ValidationError>(e),
                None => Ok(()),
            },
            res is Ok <==> self.is_feasible(),
    {
        if above(self.min_numeric, self.max_numeric) {
            return Err(ValidationError::MinAboveMax(CharClass::Numeric));
        }
        if above(self.min_lower, self.max_lower) {
            return Err(ValidationError::MinAboveMax(CharClass::Lowercase));
        }
        if above(self.min_upper, self.max_upper) {
            return Err(ValidationError::MinAboveMax(CharClass::Uppercase));
        }
        if above(self.min_symbol, self.max_symbol) {
            return Err(ValidationError::MinAboveMax(CharClass::Symbol));
        }
        if self.min_length > self.max_length {
            return Err(ValidationError::LengthBoundsReversed);
        }
        let required: u128 = or_zero(self.min_numeric) as u128 + or_zero(self.min_lower) as u128
            + or_zero(self.min_upper) as u128 + or_zero(self.min_symbol) as u128;
        if required > self.max_length as u128 {
            return Err(
                ValidationError::MinimumsExceedMaxLength { required, max_length: self.max_length },
            );
        }
        if required > self.min_length as u128 {
            return Err(
                ValidationError::MinimumsExceedMinLength { required, min_length: self.min_length },
            );
        }
        Ok(())
    }
}

/// How many characters of each class a password holds.
pub struct Composition {
    pub numeric: nat,
    pub lowercase: nat,
    pub uppercase: nat,
    pub symbol: nat,
}

impl Composition {
    /// The count of `class`.
    pub open spec fn of(self, class: CharClass) -> nat {
        match class {
            CharClass::Numeric => self.numeric,
            CharClass::Lowercase => self.lowercase,
            CharClass::Uppercase => self.uppercase,
            CharClass::Symbol => self.symbol,
        }
    }

    /// The four counts together: the password's length.
    pub open spec fn total(self) -> nat {
        self.numeric + self.lowercase + self.uppercase + self.symbol
    }

    /// The composition with one more character of `class`.
    pub open spec fn plus_one(self, class: CharClass) -> Composition {
        match class {
            CharClass::Numeric => Composition { numeric: self.numeric + 1, ..self },
            CharClass::Lowercase => Composition { lowercase: self.lowercase + 1, ..self },
            CharClass::Uppercase => Composition { uppercase: self.uppercase + 1, ..self },
            CharClass::Symbol => Composition { symbol: self.symbol + 1, ..self },
        }
    }
}

/// The counts of a password in the making, one per class.
#[derive(Debug, Clone, Copy, PartialEq, Eq)]
pub struct ClassCounts {
    pub numeric: usize,
    pub lowercase: usize,
    pub uppercase: usize,
    pub symbol: usize,
}

impl View for ClassCounts {
    type V = Composition;

    open spec fn view(&self) -> Composition {
        Composition {
            numeric: self.numeric as nat,
            lowercase: self.lowercase as nat,
            uppercase: self.uppercase as nat,
            symbol: self.symbol as nat,
        }
    }
}

/// Why no password came out of a generation.
#[derive(Debug, Clone, Copy, PartialEq, Eq, Structural)]
pub enum GenerationError {
    /// Every class stood at its maximum while the chosen length still had
    /// room: the maximums do not admit that length.
    UnsatisfiableMax,
    /// The class was to supply a character, and ambiguity filtering (or the
    /// caller) left it none.
    EmptyAlphabet(CharClass),
    /// The random bytes ran out.
    Random(RandomError),
}

impl GenerationError {
    /// The failure in words.
    pub open spec fn text(self) -> Seq<char> {
        match self {
            GenerationError::UnsatisfiableMax =>
                "Cannot satisfy length requirement with given max constraints"@,
            GenerationError::EmptyAlphabet(_) => "Character set is empty"@,
            GenerationError::Random(_) => "failed to fill whole buffer"@,
        }
    }

    /// Says the failure in words.
    pub fn message(&self) -> (out: String)
        ensures
            out@ == self.text(),
    {
        match self {
            GenerationError::UnsatisfiableMax => String::from_str(
                "Cannot satisfy length requirement with given max constraints",
            ),
            GenerationError::EmptyAlphabet(_) => String::from_str("Character set is empty"),
            GenerationError::Random(_) => String::from_str("failed to fill whole buffer"),
        }
    }
}

/// The characters that `class` draws from before any filtering.
pub open spec fn class_source(class: CharClass, symbols: Seq<char>) -> Seq<char> {
    match class {
        CharClass::Numeric => NUMERIC@,
        CharClass::Lowercase => LOWERCASE@,
        CharClass::Uppercase => UPPERCASE@,
        CharClass::Symbol => symbols,
    }
}

/// `source` as it is, or without its ambiguous characters.
pub open spec fn filtered(source: Seq<char>, exclude_ambiguous: bool) -> Seq<char> {
    if exclude_ambiguous {
        source.filter(|c: char| !is_ambiguous(c))
    } else {
        source
    }
}

/// The characters that a generator for `c` draws from for `class`.
pub open spec fn alphabet_of(c: PasswordConstraints, class: CharClass) -> Seq<char> {
    filtered(class_source(class, c.symbols@), c.exclude_ambiguous)
}

/// Whether the sampler's 32-bit draws can serve `c`: every length and the
/// number of symbol characters fit below `u32::MAX`.
pub open spec fn in_sampler_range(c: PasswordConstraints) -> bool {
    c.max_length < u32::MAX && c.symbols@.len() <= u32::MAX
}

/// The length of the next password and the bytes left: the fixed length and
/// all the bytes where the bounds agree, else `min_length` plus a draw below
/// the number of lengths allowed.
pub open spec fn drawn_length(c: PasswordConstraints, bytes: Seq<u8>) -> (Option<nat>, Seq<u8>) {
    if c.min_length == c.max_length {
        (Some(c.min_length as nat), bytes)
    } else {
        let (offset, rest) = draw(c.max_length - c.min_length + 1, bytes);
        match offset {
            Some(offset) => (Some((c.min_length + offset) as nat), rest),
            None => (None, rest),
        }
    }
}

/// `class` alone where it has room on top of `counts`, else nothing.
pub open spec fn open_class(c: PasswordConstraints, counts: Composition, class: CharClass) -> Seq<
    CharClass,
> {
    if c.has_room(counts, class) {
        seq![class]
    } else {
        Seq::empty()
    }
}

/// The classes that may take one more character on top of `counts`, in the
/// order numeric, lowercase, uppercase, symbol.
pub open spec fn eligible(c: PasswordConstraints, counts: Composition) -> Seq<CharClass> {
    open_class(c, counts, CharClass::Numeric) + open_class(c, counts, CharClass::Lowercase)
        + open_class(c, counts, CharClass::Uppercase) + open_class(c, counts, CharClass::Symbol)
}

/// Hands out `remaining` slots on top of `counts`, one at a time: each goes
/// to a class drawn among those that are eligible at that moment. Gives the
/// final composition, or why there is none, and the bytes left.
pub open spec fn distributed(
    c: PasswordConstraints,
    counts: Composition,
    remaining: nat,
    bytes: Seq<u8>,
) -> (Result<Composition, GenerationError>, Seq<u8>)
    decreases remaining,
{
    if remaining == 0 {
        (Ok(counts), bytes)
    } else {
        let open = eligible(c, counts);
        if open.len() == 0 {
            (Err(GenerationError::UnsatisfiableMax), bytes)
        } else {
            let (choice, rest) = draw(open.len() as int, bytes);
            match choice {
                Some(i) => distributed(c, counts.plus_one(open[i]), (remaining - 1) as nat, rest),
                None => (Err(GenerationError::Random(RandomError::Exhausted)), rest),
            }
        }
    }
}

/// One character drawn from `alphabet`, or why there is none, and the bytes
/// left.
pub open spec fn picked(alphabet: Seq<char>, class: CharClass, bytes: Seq<u8>) -> (
    Result<char, GenerationError>,
    Seq<u8>,
) {
    if alphabet.len() == 0 {
        (Err(GenerationError::EmptyAlphabet(class)), bytes)
    } else {
        let (choice, rest) = draw(alphabet.len() as int, bytes);
        match choice {
            Some(i) => (Ok(alphabet[i]), rest),
            None => (Err(GenerationError::Random(RandomError::Exhausted)), rest),
        }
    }
}

/// `so_far` followed by `n` characters drawn from `alphabet` one after the
/// other, or why the drawing stopped, and the bytes left.
pub open spec fn picks(
    alphabet: Seq<char>,
    class: CharClass,
    n: nat,
    so_far: Seq<char>,
    bytes: Seq<u8>,
) -> (Result<Seq<char>, GenerationError>, Seq<u8>)
    decreases n,
{
    if n == 0 {
        (Ok(so_far), bytes)
    } else {
        let (c, rest) = picked(alphabet, class, bytes);
        match c {
            Ok(c) => picks(alphabet, class, (n - 1) as nat, so_far.push(c), rest),
            Err(e) => (Err(e), rest),
        }
    }
}

/// [`picks`] on top of an earlier outcome; an earlier failure stands.
pub open spec fn picks_after(
    earlier: (Result<Seq<char>, GenerationError>, Seq<u8>),
    alphabet: Seq<char>,
    class: CharClass,
    n: nat,
) -> (Result<Seq<char>, GenerationError>, Seq<u8>) {
    match earlier.0 {
        Ok(so_far) => picks(alphabet, class, n, so_far, earlier.1),
        Err(_) => earlier,
    }
}

/// The characters of a password with the composition `counts`, before they
/// are shuffled: the numeric ones first, then lowercase, uppercase, symbols.
pub open spec fn assembled(c: PasswordConstraints, counts: Composition, bytes: Seq<u8>) -> (
    Result<Seq<char>, GenerationError>,
    Seq<u8>,
) {
    let numeric = picks(
        alphabet_of(c, CharClass::Numeric),
        CharClass::Numeric,
        counts.numeric,
        Seq::empty(),
        bytes,
    );
    let lowercase = picks_after(
        numeric,
        alphabet_of(c, CharClass::Lowercase),
        CharClass::Lowercase,
        counts.lowercase,
    );
    let uppercase = picks_after(
        lowercase,
        alphabet_of(c, CharClass::Uppercase),
        CharClass::Uppercase,
        counts.uppercase,
    );
    picks_after(uppercase, alphabet_of(c, CharClass::Symbol), CharClass::Symbol, counts.symbol)
}

/// The password that a generator for `c` makes of `bytes`, or why it makes
/// none, and the bytes left: a length is chosen, the slots beyond the
/// minimums are handed out, the characters are drawn class by class, and the
/// whole is shuffled.
pub open spec fn generated(c: PasswordConstraints, bytes: Seq<u8>) -> (
    Result<Seq<char>, GenerationError>,
    Seq<u8>,
) {
    let (length, after_length) = drawn_length(c, bytes);
    match length {
        None => (Err(GenerationError::Random(RandomError::Exhausted)), after_length),
        Some(length) => {
            let (counts, after_slots) = distributed(
                c,
                c.floors(),
                (length - c.required()) as nat,
                after_length,
            );
            match counts {
                Err(e) => (Err(e), after_slots),
                Ok(counts) => {
                    let (chars, after_chars) = assembled(c, counts, after_slots);
                    match chars {
                        Err(e) => (Err(e), after_chars),
                        Ok(chars) => {
                            let (done, password, rest) = shuffle_down(
                                chars,
                                chars.len() - 1,
                                after_chars,
                            );
                            if done {
                                (Ok(password), rest)
                            } else {
                                (Err(GenerationError::Random(RandomError::Exhausted)), rest)
                            }
                        },
                    }
                },
            }
        },
    }
}

/// Whether every character of `part` occurs in `alphabet`.
pub open spec fn drawn_from(part: Seq<char>, alphabet: Seq<char>) -> bool {
    forall|i: int| 0 <= i < part.len() ==> alphabet.contains(#[trigger] part[i])
}

/// Whether `password` is some ordering of the four parts, each part drawn
/// from its class's alphabet and of a length within that class's bounds.
pub open spec fn arranges(
    c: PasswordConstraints,
    password: Seq<char>,
    numeric: Seq<char>,
    lowercase: Seq<char>,
    uppercase: Seq<char>,
    symbol: Seq<char>,
) -> bool {
    &&& password.to_multiset() == (numeric + lowercase + uppercase + symbol).to_multiset()
    &&& drawn_from(numeric, alphabet_of(c, CharClass::Numeric))
    &&& drawn_from(lowercase, alphabet_of(c, CharClass::Lowercase))
    &&& drawn_from(uppercase, alphabet_of(c, CharClass::Uppercase))
    &&& drawn_from(symbol, alphabet_of(c, CharClass::Symbol))
    &&& c.count_allowed(CharClass::Numeric, numeric.len())
    &&& c.count_allowed(CharClass::Lowercase, lowercase.len())
    &&& c.count_allowed(CharClass::Uppercase, uppercase.len())
    &&& c.count_allowed(CharClass::Symbol, symbol.len())
}

/// Whether `password` keeps every class within its bounds: it can be split
/// into a numeric, a lowercase, an uppercase and a symbol part, each drawn
/// from its alphabet and of an allowed length.
pub open spec fn meets_class_bounds(c: PasswordConstraints, password: Seq<char>) -> bool {
    exists|numeric: Seq<char>, lowercase: Seq<char>, uppercase: Seq<char>, symbol: Seq<char>|
        arranges(c, password, numeric, lowercase, uppercase, symbol)
}

/// With ambiguous characters excluded, no alphabet holds one.
pub proof fn lemma_alphabet_unambiguous(c: PasswordConstraints, class: CharClass, ch: char)
    requires
        c.exclude_ambiguous,
        alphabet_of(c, class).contains(ch),
    ensures
        !is_ambiguous(ch),
{
    let source = class_source(class, c.symbols@);
    let keep = |c: char| !is_ambiguous(c);
    let i = choose|i: int| 0 <= i < source.filter(keep).len() && source.filter(keep)[i] == ch;
    source.lemma_filter_pred(keep, i);
}

/// An alphabet is no longer than the characters that it was filtered from.
pub proof fn lemma_alphabet_fits(c: PasswordConstraints, class: CharClass)
    ensures
        alphabet_of(c, class).len() <= class_source(class, c.symbols@).len(),
        class != CharClass::Symbol ==> alphabet_of(c, class).len() <= 26,
{
    reveal_strlit("abcdefghijklmnopqrstuvwxyz");
    reveal_strlit("ABCDEFGHIJKLMNOPQRSTUVWXYZ");
    reveal_strlit("0123456789");
    class_source(class, c.symbols@).lemma_filter_len(|c: char| !is_ambiguous(c));
}

/// The digits and the letters never run out: each of these alphabets keeps
/// a character even without the ambiguous ones.
pub proof fn lemma_fixed_alphabets_nonempty(c: PasswordConstraints, class: CharClass)
    requires
        class != CharClass::Symbol,
    ensures
        alphabet_of(c, class).len() > 0,
{
    reveal_strlit("abcdefghijklmnopqrstuvwxyz");
    reveal_strlit("ABCDEFGHIJKLMNOPQRSTUVWXYZ");
    reveal_strlit("0123456789");
    let source = class_source(class, c.symbols@);
    let keep = |c: char| !is_ambiguous(c);
    assert(source.len() >= 10);
    assert(!is_ambiguous(source[2]));
    source.lemma_filter_contains(keep, 2);
}

/// A character of the four parts put together lies in one of the alphabets,
/// so it is unambiguous where ambiguous characters are excluded.
proof fn lemma_part_of_alphabet(
    c: PasswordConstraints,
    numeric: Seq<char>,
    lowercase: Seq<char>,
    uppercase: Seq<char>,
    symbol: Seq<char>,
    ch: char,
)
    requires
        c.exclude_ambiguous,
        drawn_from(numeric, alphabet_of(c, CharClass::Numeric)),
        drawn_from(lowercase, alphabet_of(c, CharClass::Lowercase)),
        drawn_from(uppercase, alphabet_of(c, CharClass::Uppercase)),
        drawn_from(symbol, alphabet_of(c, CharClass::Symbol)),
        (numeric + lowercase + uppercase + symbol).contains(ch),
    ensures
        !is_ambiguous(ch),
{
    let all = numeric + lowercase + uppercase + symbol;
    let i = choose|i: int| 0 <= i < all.len() && all[i] == ch;
    if i < numeric.len() {
        assert(ch == numeric[i]);
        lemma_alphabet_unambiguous(c, CharClass::Numeric, ch);
    } else if i < numeric.len() + lowercase.len() {
        assert(ch == lowercase[i - numeric.len()]);
        lemma_alphabet_unambiguous(c, CharClass::Lowercase, ch);
    } else if i < numeric.len() + lowercase.len() + uppercase.len() {
        assert(ch == uppercase[i - numeric.len() - lowercase.len()]);
        lemma_alphabet_unambiguous(c, CharClass::Uppercase, ch);
    } else {
        assert(ch == symbol[i - numeric.len() - lowercase.len() - uppercase.len()]);
        lemma_alphabet_unambiguous(c, CharClass::Symbol, ch);
    }
}

/// Two sequences with the same elements contain the same values.
pub proof fn lemma_same_elements_contain<T>(a: Seq<T>, b: Seq<T>, x: T)
    requires
        a.to_multiset() == b.to_multiset(),
        a.contains(x),
    ensures
        b.contains(x),
{
    vstd::seq_lib::to_multiset_contains(a, x);
    vstd::seq_lib::to_multiset_contains(b, x);
}

/// How many characters of `password`, each counted as often as it occurs,
/// lie in `alphabet`.
pub open spec fn count_in(password: Seq<char>, alphabet: Seq<char>) -> nat {
    password.to_multiset().filter(|c: char| alphabet.contains(c)).len()
}

/// Whether no character lies in the alphabets of two classes.
pub open spec fn alphabets_disjoint(c: PasswordConstraints) -> bool {
    forall|ch: char, a: CharClass, b: CharClass|
        a != b && #[trigger] alphabet_of(c, a).contains(ch) ==> !#[trigger] alphabet_of(
            c,
            b,
        ).contains(ch)
}

/// Whether `ch` is a digit or an unaccented letter.
pub open spec fn is_letter_or_digit(ch: char) -> bool {
    '0' <= ch <= '9' || 'a' <= ch <= 'z' || 'A' <= ch <= 'Z'
}

/// An alphabet holds only characters of its class: digits, lowercase
/// letters, uppercase letters, or the symbols given.
pub proof fn lemma_alphabet_within_class(c: PasswordConstraints, class: CharClass, ch: char)
    requires
        alphabet_of(c, class).contains(ch),
    ensures
        match class {
            CharClass::Numeric => '0' <= ch <= '9',
            CharClass::Lowercase => 'a' <= ch <= 'z',
            CharClass::Uppercase => 'A' <= ch <= 'Z',
            CharClass::Symbol => c.symbols@.contains(ch),
        },
{
    reveal_strlit("abcdefghijklmnopqrstuvwxyz");
    reveal_strlit("ABCDEFGHIJKLMNOPQRSTUVWXYZ");
    reveal_strlit("0123456789");
    let source = class_source(class, c.symbols@);
    if c.exclude_ambiguous {
        source.lemma_filter_contains_rev(|c: char| !is_ambiguous(c), ch);
    }
    let i = choose|i: int| 0 <= i < source.len() && source[i] == ch;
    assert(source[i] == ch);
}

/// Symbols that are neither digits nor unaccented letters keep the four
/// alphabets apart.
pub proof fn lemma_plain_symbols_keep_alphabets_disjoint(c: PasswordConstraints)
    requires
        forall|i: int| 0 <= i < c.symbols@.len() ==> !is_letter_or_digit(#[trigger] c.symbols@[i]),
    ensures
        alphabets_disjoint(c),
{
    assert forall|ch: char, a: CharClass, b: CharClass|
        a != b && #[trigger] alphabet_of(c, a).contains(ch) implies !#[trigger] alphabet_of(
        c,
        b,
    ).contains(ch) by {
        lemma_alphabet_within_class(c, a, ch);
        if alphabet_of(c, b).contains(ch) {
            lemma_alphabet_within_class(c, b, ch);
            if c.symbols@.contains(ch) {
                let i = choose|i: int| 0 <= i < c.symbols@.len() && c.symbols@[i] == ch;
                assert(!is_letter_or_digit(c.symbols@[i]));
            }
        }
    }
}

/// The characters of `part` that lie in `alphabet`: all of them where
/// `part` was drawn from it, none where it was drawn from an alphabet that
/// shares no character with it.
proof fn lemma_part_count(part: Seq<char>, from: Seq<char>, alphabet: Seq<char>, ch: char)
    requires
        drawn_from(part, from),
    ensures
        from == alphabet && !alphabet.contains(ch) ==> part.to_multiset().count(ch) == 0,
        (forall|x: char| from.contains(x) ==> !alphabet.contains(x)) && alphabet.contains(ch)
            ==> part.to_multiset().count(ch) == 0,
{
    vstd::seq_lib::to_multiset_contains(part, ch);
    if part.contains(ch) {
        let i = choose|i: int| 0 <= i < part.len() && part[i] == ch;
        assert(from.contains(part[i]));
    }
}

/// Where the alphabets share no character, a password that keeps every
/// class within its bounds has, for each class, a number of characters from
/// that class's alphabet that the constraints allow.
pub proof fn lemma_class_counts_within_bounds(
    c: PasswordConstraints,
    password: Seq<char>,
    class: CharClass,
)
    requires
        meets_class_bounds(c, password),
        alphabets_disjoint(c),
    ensures
        c.count_allowed(class, count_in(password, alphabet_of(c, class))),
{
    broadcast use vstd::multiset::group_multiset_axioms;

    let (numeric, lowercase, uppercase, symbol) = choose|
        numeric: Seq<char>,
        lowercase: Seq<char>,
        uppercase: Seq<char>,
        symbol: Seq<char>,
    | arranges(c, password, numeric, lowercase, uppercase, symbol);
    let alphabet = alphabet_of(c, class);
    let inside = |ch: char| alphabet.contains(ch);
    let own = match class {
        CharClass::Numeric => numeric,
        CharClass::Lowercase => lowercase,
        CharClass::Uppercase => uppercase,
        CharClass::Symbol => symbol,
    };
    vstd::seq_lib::lemma_multiset_commutative(numeric + lowercase + uppercase, symbol);
    vstd::seq_lib::lemma_multiset_commutative(numeric + lowercase, uppercase);
    vstd::seq_lib::lemma_multiset_commutative(numeric, lowercase);
    let all = password.to_multiset();
    assert(all =~= numeric.to_multiset().add(lowercase.to_multiset()).add(
        uppercase.to_multiset(),
    ).add(symbol.to_multiset()));
    assert forall|ch: char| all.filter(inside).count(ch) == own.to_multiset().count(ch) by {
        lemma_part_count(numeric, alphabet_of(c, CharClass::Numeric), alphabet, ch);
        lemma_part_count(lowercase, alphabet_of(c, CharClass::Lowercase), alphabet, ch);
        lemma_part_count(uppercase, alphabet_of(c, CharClass::Uppercase), alphabet, ch);
        lemma_part_count(symbol, alphabet_of(c, CharClass::Symbol), alphabet, ch);
        assert forall|x: char, other: CharClass|
            other != class && alphabet_of(c, other).contains(x) implies !alphabet.contains(x) by {
            assert(alphabet_of(c, other).contains(x));
        }
    }
    assert(all.filter(inside) =~= own.to_multiset());
    vstd::seq_lib::to_multiset_len(own);
}

/// Generates passwords for one validated set of constraints.
pub struct PasswordGenerator {
    constraints: PasswordConstraints,
    lowercase_chars: Vec<char>,
    uppercase_chars: Vec<char>,
    numeric_chars: Vec<char>,
    symbol_chars: Vec<char>,
}

/// Copies `source`, leaving out the ambiguous characters where asked to.
fn filter_ambiguous(source: &[char], exclude_ambiguous: bool) -> (out: Vec<char>)
    ensures
        out@ == filtered(source@, exclude_ambiguous),
{
    let mut out: Vec<char> = Vec::new();
    let mut i: usize = 0;
    while i < source.len()
        invariant
            i <= source@.len(),
            out@ == filtered(source@.take(i as int), exclude_ambiguous),
        decreases source@.len() - i,
    {
        let c: char = source[i];
        proof {
            assert(source@.take(i + 1) =~= source@.take(i as int).push(c));
            source@.take(i as int).lemma_filter_push(c, |c: char| !is_ambiguous(c));
        }
        if !(exclude_ambiguous && ambiguous(c)) {
            out.push(c);
        }
        i += 1;
    }
    assert(source@.take(i as int) =~= source@);
    out
}

impl PasswordGenerator {
    #[verifier::type_invariant]
    spec fn well_formed(&self) -> bool {
        &&& self.constraints.is_feasible()
        &&& in_sampler_range(self.constraints)
        &&& self.numeric_chars@ == alphabet_of(self.constraints, CharClass::Numeric)
        &&& self.lowercase_chars@ == alphabet_of(self.constraints, CharClass::Lowercase)
        &&& self.uppercase_chars@ == alphabet_of(self.constraints, CharClass::Uppercase)
        &&& self.symbol_chars@ == alphabet_of(self.constraints, CharClass::Symbol)
    }

    /// The constraints that the generator was built for.
    pub closed spec fn constraints(&self) -> PasswordConstraints {
        self.constraints
    }

    /// Chooses the password's length: the fixed one, or a uniform draw among
    /// the lengths from `min_length` to `max_length`.
    #[verifier::loop_isolation(false)]
    fn choose_length(&self, entropy: &mut Entropy) -> (res: Result<usize, RandomError>)
        ensures
            match drawn_length(self.constraints(), old(entropy)@).0 {
                Some(n) => res matches Ok(r) && r == n,
                None => res == Err::<usize, RandomError>(RandomError::Exhausted),
            },
            final(entropy)@ == drawn_length(self.constraints(), old(entropy)@).1,
            res matches Ok(r) ==> self.constraints().min_length <= r
                <= self.constraints().max_length,
    {
        proof {
            use_type_invariant(self);
        }
        if self.constraints.min_length == self.constraints.max_length {
            Ok(self.constraints.min_length)
        } else {
            let range: usize = self.constraints.max_length - self.constraints.min_length + 1;
            proof {
                crate::random::lemma_draw_in_range(range as int, entropy@);
            }
            match SecureRandom::random_range(range, entropy) {
                Ok(offset) => Ok(self.constraints.min_length + offset),
                Err(e) => Err(e),
            }
        }
    }

    /// Hands out the slots that `length` leaves beyond the minimums, one at a
    /// time, each to a class drawn uniformly among those below their maximum
    /// at that moment. Fails with `UnsatisfiableMax` exactly when the draws
    /// suffice and the maximums do not admit `length`.
    #[verifier::loop_isolation(false)]
    pub fn distribute_slots(&self, length: usize, entropy: &mut Entropy) -> (res: Result<
        ClassCounts,
        GenerationError,
    >)
        requires
            self.constraints().required() <= length <= self.constraints().max_length,
        ensures
            ({
                let c = self.constraints();
                let (counts, rest) = distributed(
                    c,
                    c.floors(),
                    (length - c.required()) as nat,
                    old(entropy)@,
                );
                &&& final(entropy)@ == rest
                &&& match counts {
                    Ok(counts) => res matches Ok(r) && r@ == counts,
                    Err(e) => res == Err::<ClassCounts, GenerationError>(e),
                }
            }),
            res matches Ok(r) ==> self.constraints().allows(r@) && r@.total() == length,
            res is Ok ==> self.constraints().admits_length(length as nat),
            res matches Err(e) ==> e == GenerationError::Random(RandomError::Exhausted) || (e
                == GenerationError::UnsatisfiableMax && !self.constraints().admits_length(
                length as nat,
            )),
    {
        proof {
            use_type_invariant(self);
        }
        let c = &self.constraints;
        let mut counts = ClassCounts {
            numeric: or_zero(c.min_numeric),
            lowercase: or_zero(c.min_lower),
            uppercase: or_zero(c.min_upper),
            symbol: or_zero(c.min_symbol),
        };
        let total: usize = counts.numeric + counts.lowercase + counts.uppercase + counts.symbol;
        let mut remaining: usize = length - total;
        while remaining > 0
            invariant
                counts@.total() + remaining == length,
                c.allows(counts@),
                distributed(*c, counts@, remaining as nat, entropy@) == distributed(
                    *c,
                    c.floors(),
                    (length - c.required()) as nat,
                    old(entropy)@,
                ),
            decreases remaining,
        {
            let mut available: Vec<CharClass> = Vec::new();
            if below(counts.numeric, c.max_numeric) {
                available.push(CharClass::Numeric);
            }
            if below(counts.lowercase, c.max_lower) {
                available.push(CharClass::Lowercase);
            }
            if below(counts.uppercase, c.max_upper) {
                available.push(CharClass::Uppercase);
            }
            if below(counts.symbol, c.max_symbol) {
                available.push(CharClass::Symbol);
            }
            assert(available@ =~= eligible(*c, counts@));
            if available.len() == 0 {
                return Err(GenerationError::UnsatisfiableMax);
            }
            proof {
                crate::random::lemma_draw_in_range(available@.len() as int, entropy@);
            }
            let choice: usize = match SecureRandom::random_range(available.len(), entropy) {
                Ok(i) => i,
                Err(e) => {
                    return Err(GenerationError::Random(e));
                },
            };
            match available[choice] {
                CharClass::Numeric => {
                    counts.numeric += 1;
                },
                CharClass::Lowercase => {
                    counts.lowercase += 1;
                },
                CharClass::Uppercase => {
                    counts.uppercase += 1;
                },
                CharClass::Symbol => {
                    counts.symbol += 1;
                },
            }
            remaining -= 1;
        }
        Ok(counts)
    }

    /// Generates one password from the bytes of `entropy`: the password
    /// [`generated`] of them. It has a length within the length bounds, keeps
    /// every class within its bounds, and is free of ambiguous characters
    /// where the constraints exclude them.
    pub fn generate(&self, entropy: &mut Entropy) -> (res: Result<String, GenerationError>)
        ensures
            ({
                let (password, rest) = generated(self.constraints(), old(entropy)@);
                &&& final(entropy)@ == rest
                &&& match password {
                    Ok(password) => res matches Ok(s) && s@ == password,
                    Err(e) => res == Err::<String, GenerationError>(e),
                }
            }),
            res matches Ok(s) ==> {
                &&& self.constraints().min_length <= s@.len() <= self.constraints().max_length
                &&& meets_class_bounds(self.constraints(), s@)
                &&& self.constraints().exclude_ambiguous ==> forall|i: int|
                    0 <= i < s@.len() ==> !is_ambiguous(#[trigger] s@[i])
            },
            res matches Err(GenerationError::EmptyAlphabet(class)) ==> alphabet_of(
                self.constraints(),
                class,
            ).len() == 0 && self.constraints().max_of(class) != Some(0usize),
            res matches Err(GenerationError::UnsatisfiableMax) ==> drawn_length(
                self.constraints(),
                old(entropy)@,
            ).0 matches Some(length) && !self.constraints().admits_length(length),
            self.constraints().admits_length(self.constraints().max_length as nat) && (alphabet_of(
                self.constraints(),
                CharClass::Symbol,
            ).len() > 0 || self.constraints().max_symbol == Some(0usize)) ==> res is Ok || res
                == Err::<String, GenerationError>(
                GenerationError::Random(RandomError::Exhausted),
            ),
    {
        proof {
            use_type_invariant(self);
        }
        let ghost c = self.constraints;
        let length: usize = match self.choose_length(entropy) {
            Ok(length) => length,
            Err(e) => {
                return Err(GenerationError::Random(e));
            },
        };
        let counts: ClassCounts = match self.distribute_slots(length, entropy) {
            Ok(counts) => counts,
            Err(e) => {
                return Err(e);
            },
        };
        proof {
            lemma_alphabet_fits(c, CharClass::Numeric);
            lemma_alphabet_fits(c, CharClass::Lowercase);
            lemma_alphabet_fits(c, CharClass::Uppercase);
            lemma_alphabet_fits(c, CharClass::Symbol);
            lemma_fixed_alphabets_nonempty(c, CharClass::Numeric);
            lemma_fixed_alphabets_nonempty(c, CharClass::Lowercase);
            lemma_fixed_alphabets_nonempty(c, CharClass::Uppercase);
        }
        let mut password: Vec<char> = Vec::new();
        match self.append_picks(
            self.numeric_chars.as_slice(),
            CharClass::Numeric,
            counts.numeric,
            &mut password,
            entropy,
        ) {
            Ok(()) => {},
            Err(e) => {
                return Err(e);
            },
        }
        let ghost numeric = password@;
        assert(drawn_from(numeric, alphabet_of(c, CharClass::Numeric)) && numeric.len()
            == counts.numeric) by {
            let part = choose|part: Seq<char>| #[trigger]
                drawn_from(part, self.numeric_chars@) && part.len() == counts.numeric
                    && password@ == Seq::<char>::empty() + part;
            assert(numeric =~= part);
        }
        match self.append_picks(
            self.lowercase_chars.as_slice(),
            CharClass::Lowercase,
            counts.lowercase,
            &mut password,
            entropy,
        ) {
            Ok(()) => {},
            Err(e) => {
                return Err(e);
            },
        }
        let ghost lowercase = choose|part: Seq<char>| #[trigger]
            drawn_from(part, self.lowercase_chars@) && part.len() == counts.lowercase
                && password@ == numeric + part;
        match self.append_picks(
            self.uppercase_chars.as_slice(),
            CharClass::Uppercase,
            counts.uppercase,
            &mut password,
            entropy,
        ) {
            Ok(()) => {},
            Err(e) => {
                return Err(e);
            },
        }
        let ghost uppercase = choose|part: Seq<char>| #[trigger]
            drawn_from(part, self.uppercase_chars@) && part.len() == counts.uppercase
                && password@ == numeric + lowercase + part;
        match self.append_picks(
            self.symbol_chars.as_slice(),
            CharClass::Symbol,
            counts.symbol,
            &mut password,
            entropy,
        ) {
            Ok(()) => {},
            Err(e) => {
                return Err(e);
            },
        }
        let ghost symbol = choose|part: Seq<char>| #[trigger]
            drawn_from(part, self.symbol_chars@) && part.len() == counts.symbol && password@
                == numeric + lowercase + uppercase + part;
        let ghost ordered = password@;
        assert(ordered.len() == length);
        match SecureRandom::shuffle(password.as_mut_slice(), entropy) {
            Ok(()) => {},
            Err(e) => {
                return Err(GenerationError::Random(e));
            },
        }
        let out = string_of(password.as_slice());
        proof {
            assert(arranges(c, out@, numeric, lowercase, uppercase, symbol));
            if c.exclude_ambiguous {
                assert forall|i: int| 0 <= i < out@.len() implies !is_ambiguous(
                    #[trigger] out@[i],
                ) by {
                    let ch = out@[i];
                    lemma_same_elements_contain(out@, ordered, ch);
                    lemma_part_of_alphabet(c, numeric, lowercase, uppercase, symbol, ch);
                }
            }
        }
        Ok(out)
    }

    /// Draws one character of `chars`, each equally likely.
    fn pick_random(&self, chars: &[char], class: CharClass, entropy: &mut Entropy) -> (res: Result<
        char,
        GenerationError,
    >)
        requires
            chars@.len() <= u32::MAX,
        ensures
            res == picked(chars@, class, old(entropy)@).0,
            final(entropy)@ == picked(chars@, class, old(entropy)@).1,
            res matches Ok(c) ==> chars@.contains(c),
            res matches Err(e) ==> e == GenerationError::Random(RandomError::Exhausted) || (e
                == GenerationError::EmptyAlphabet(class) && chars@.len() == 0),
    {
        if chars.len() == 0 {
            return Err(GenerationError::EmptyAlphabet(class));
        }
        proof {
            crate::random::lemma_draw_in_range(chars@.len() as int, entropy@);
        }
        match SecureRandom::random_range(chars.len(), entropy) {
            Ok(index) => Ok(chars[index]),
            Err(e) => Err(GenerationError::Random(e)),
        }
    }

    /// Appends `count` characters drawn from `chars` to `password`.
    fn append_picks(
        &self,
        chars: &[char],
        class: CharClass,
        count: usize,
        password: &mut Vec<char>,
        entropy: &mut Entropy,
    ) -> (res: Result<(), GenerationError>)
        requires
            chars@.len() <= u32::MAX,
        ensures
            ({
                let (chosen, rest) = picks(
                    chars@,
                    class,
                    count as nat,
                    old(password)@,
                    old(entropy)@,
                );
                &&& final(entropy)@ == rest
                &&& match chosen {
                    Ok(chosen) => res is Ok && final(password)@ == chosen,
                    Err(e) => res == Err::<(), GenerationError>(e),
                }
            }),
            res is Ok ==> exists|part: Seq<char>| #[trigger]
                drawn_from(part, chars@) && part.len() == count && final(password)@ == old(
                    password,
                )@ + part,
            res matches Err(e) ==> e == GenerationError::Random(RandomError::Exhausted) || (e
                == GenerationError::EmptyAlphabet(class) && chars@.len() == 0 && count > 0),
    {
        let ghost mut part: Seq<char> = Seq::empty();
        let mut k: usize = 0;
        while k < count
            invariant
                k <= count,
                chars@.len() <= u32::MAX,
                drawn_from(part, chars@),
                part.len() == k,
                password@ == old(password)@ + part,
                picks(chars@, class, (count - k) as nat, password@, entropy@) == picks(
                    chars@,
                    class,
                    count as nat,
                    old(password)@,
                    old(entropy)@,
                ),
            decreases count - k,
        {
            let c: char = match self.pick_random(chars, class, entropy) {
                Ok(c) => c,
                Err(e) => {
                    return Err(e);
                },
            };
            password.push(c);
            proof {
                part = part.push(c);
                assert(password@ =~= old(password)@ + part);
            }
            k += 1;
        }
        Ok(())
    }

    /// Builds a generator for `constraints`, or names the first rule that
    /// they break.
    pub fn new(constraints: PasswordConstraints) -> (res: Result<PasswordGenerator, ValidationError>)
        requires
            in_sampler_range(constraints),
        ensures
            match res {
                Ok(generator) => constraints.violation() is None && generator.constraints()
                    == constraints,
                Err(e) => constraints.violation() == Some(e),
            },
            res is Ok <==> constraints.is_feasible(),
    {
        match constraints.validate() {
            Err(e) => {
                return Err(e);
            },
            Ok(()) => {},
        }
        let exclude: bool = constraints.exclude_ambiguous;
        let lowercase_chars = filter_ambiguous(chars_of(LOWERCASE).as_slice(), exclude);
        let uppercase_chars = filter_ambiguous(chars_of(UPPERCASE).as_slice(), exclude);
        let numeric_chars = filter_ambiguous(chars_of(NUMERIC).as_slice(), exclude);
        let symbol_chars = filter_ambiguous(
            chars_of(constraints.symbols.as_str()).as_slice(),
            exclude,
        );
        Ok(
            PasswordGenerator {
                constraints,
                lowercase_chars,
                uppercase_chars,
                numeric_chars,
                symbol_chars,
            },
        )
    }
}

/// Whether `count` may still grow under `max`.
fn below(count: usize, max: Option<usize>) -> (b: bool)
    ensures
        b == match max {
            Some(most) => count < most,
            None => true,
        },
{
    match max {
        Some(most) => count < most,
        None => true,
    }
}

/// Whether both bounds are given and the minimum is the greater.
fn above(min: Option<usize>, max: Option<usize>) -> (b: bool)
    ensures
        b == match (min, max) {
            (Some(lo), Some(hi)) => lo > hi,
            _ => false,
        },
{
    match (min, max) {
        (Some(lo), Some(hi)) => lo > hi,
        _ => false,
    }
}

/// The bound, or zero where none is given.
fn or_zero(bound: Option<usize>) -> (n: usize)
    ensures
        n == match bound {
            Some(v) => v,
            None => 0usize,
        },
{
    match bound {
        Some(v) => v,
        None => 0,
    }
}

} // verus!
