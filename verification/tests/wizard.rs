use genpass::config::Config;
use genpass::wizard::{Step, Wizard, INTRO};

/// Feeds the lines to a fresh dialogue and gives back everything shown.
fn run(lines: &[&str]) -> (Wizard, String) {
    let mut wizard = Wizard::new();
    let mut shown = String::from(INTRO);
    for line in lines {
        shown.push_str(&wizard.prompt());
        shown.push_str(&wizard.answer(line));
    }
    (wizard, shown)
}

#[test]
fn the_dialogue_starts_at_the_choice_of_length() {
    let wizard = Wizard::new();
    assert_eq!(wizard.step, Step::LengthChoice);
    assert_eq!(wizard.config, Config::default());
    assert_eq!(wizard.save_name, None);
    assert!(!wizard.is_done());
    assert_eq!(wizard.prompt(), "  Enter choice: ");
}

#[test]
fn an_exact_length_skips_the_range() {
    let (wizard, _) = run(&["1\n", "24\n"]);
    assert_eq!(wizard.step, Step::MinNumeric);
    assert_eq!(wizard.config.length, Some(24));
    assert_eq!(wizard.config.min_length, None);
}

#[test]
fn a_range_asks_for_both_ends_with_their_defaults() {
    let (wizard, shown) = run(&["2\n", "\n", "30\n"]);
    assert_eq!(wizard.step, Step::MinNumeric);
    assert_eq!(wizard.config.length, None);
    assert_eq!(wizard.config.min_length, Some(12));
    assert_eq!(wizard.config.max_length, Some(30));
    assert!(shown.ends_with(
        "  Enter choice:   Enter minimum length [12]:   Enter maximum length [20]: \n\
         Character Type Requirements:\n  (Press Enter to skip any constraint)\n\n"
    ));
}

#[test]
fn a_choice_that_names_no_option_is_asked_again() {
    let mut wizard = Wizard::new();
    assert_eq!(wizard.answer("3\n"), "  Invalid choice, please try again.\n");
    assert_eq!(wizard.step, Step::LengthChoice);
    assert_eq!(wizard.answer("\n"), "  Invalid choice, please try again.\n");
    assert_eq!(wizard.step, Step::LengthChoice);
    assert_eq!(wizard.answer(" 1 \n"), "");
    assert_eq!(wizard.step, Step::ExactLength);
    assert_eq!(wizard.prompt(), "  Enter password length [16]: ");
}

#[test]
fn a_number_that_cannot_be_read_is_asked_again() {
    let (mut wizard, _) = run(&["1\n"]);
    assert_eq!(wizard.answer("long\n"), "  Invalid number, please try again.\n");
    assert_eq!(wizard.step, Step::ExactLength);
    assert_eq!(wizard.config.length, None);
    assert_eq!(
        wizard.answer("\n"),
        "\nCharacter Type Requirements:\n  (Press Enter to skip any constraint)\n\n"
    );
    assert_eq!(wizard.config.length, Some(16));
}

#[test]
fn a_bound_that_cannot_be_read_is_skipped() {
    let (mut wizard, _) = run(&["1\n", "\n", "2\n"]);
    assert_eq!(wizard.step, Step::MaxNumeric);
    assert_eq!(wizard.config.min_numeric, Some(2));
    assert_eq!(wizard.answer("many\n"), "  Invalid number, skipping.\n\n");
    assert_eq!(wizard.config.max_numeric, None);
    assert_eq!(wizard.step, Step::MinLower);
    assert_eq!(wizard.answer("x\n"), "  Invalid number, skipping.\n");
    assert_eq!(wizard.step, Step::MaxLower);
}

#[test]
fn the_whole_dialogue_with_defaults() {
    let lines = ["1\n", "\n", "\n", "\n", "\n", "\n", "\n", "\n", "\n", "\n", "\n", "\n", "\n", "\n"];
    let (wizard, shown) = run(&lines);
    assert!(wizard.is_done());
    assert_eq!(wizard.prompt(), "");
    assert_eq!(wizard.save_name, None);
    assert_eq!(
        wizard.config,
        Config {
            min_numeric: None,
            max_numeric: None,
            min_lower: None,
            max_lower: None,
            min_upper: None,
            max_upper: None,
            min_symbol: None,
            max_symbol: None,
            length: Some(16),
            min_length: None,
            max_length: None,
            symbols: None,
            exclude_ambiguous: Some(false),
            count: Some(1),
        }
    );
    let expected = "=== Password Generator Configuration Wizard ===\n\
        \n\
        Password Length:\n\
        \x20 Choose an option:\n\
        \x20 1. Exact length (recommended)\n\
        \x20 2. Range (min to max)\n\
        \x20 Enter choice:   Enter password length [16]: \n\
        Character Type Requirements:\n\
        \x20 (Press Enter to skip any constraint)\n\
        \n\
        \x20 Minimum numeric characters (0-9):   Maximum numeric characters (0-9): \n\
        \x20 Minimum lowercase letters (a-z):   Maximum lowercase letters (a-z): \n\
        \x20 Minimum uppercase letters (A-Z):   Maximum uppercase letters (A-Z): \n\
        \x20 Minimum symbol characters:   Maximum symbol characters: \n\
        Symbol Characters:\n\
        \x20 Default: !@#$%^&*()_+-=[]{}|;:,.<>?\n\
        \x20 Use custom symbols? (y/N): \n\
        Options:\n\
        \x20 Exclude ambiguous characters (0/O, 1/l/I)? (y/N): \n\
        \x20 Number of passwords to generate [1]: \n\
        === Configuration Summary ===\n\
        Configuration: default\n\
        \n\
        Character Type Constraints:\n\
        \x20 Numeric (0-9): no constraint\n\
        \x20 Lowercase (a-z): no constraint\n\
        \x20 Uppercase (A-Z): no constraint\n\
        \x20 Symbols: no constraint\n\
        \n\
        Password Length:\n\
        \x20 Exact length: 16\n\
        \n\
        Symbol Characters:\n\
        \x20 !@#$%^&*()_+-=[]{}|;:,.<>? (default)\n\
        \n\
        Options:\n\
        \x20 Exclude ambiguous characters: no\n\
        \x20 Password count: 1\n\
        \n\
        Save this configuration? (y/N): ";
    assert_eq!(shown, expected);
}

#[test]
fn the_whole_dialogue_with_answers() {
    let lines = [
        "2\n", "10\n", "14\n", "1\n", "2\n", "3\n", "4\n", "5\n", "6\n", "0\n", "1\n", "Y\n",
        " #+- \n", "yes\n", "3\n", "y\n", " work \n",
    ];
    let (wizard, _) = run(&lines);
    assert!(wizard.is_done());
    assert_eq!(wizard.save_name, Some("work".to_string()));
    assert_eq!(
        wizard.config,
        Config {
            min_numeric: Some(1),
            max_numeric: Some(2),
            min_lower: Some(3),
            max_lower: Some(4),
            min_upper: Some(5),
            max_upper: Some(6),
            min_symbol: Some(0),
            max_symbol: Some(1),
            length: None,
            min_length: Some(10),
            max_length: Some(14),
            symbols: Some("#+-".to_string()),
            exclude_ambiguous: Some(true),
            count: Some(3),
        }
    );
}

#[test]
fn an_empty_name_saves_under_the_default() {
    let lines =
        ["1\n", "\n", "\n", "\n", "\n", "\n", "\n", "\n", "\n", "\n", "\n", "\n", "\n", "y\n"];
    let (mut wizard, _) = run(&lines);
    assert_eq!(wizard.step, Step::SaveName);
    assert_eq!(wizard.prompt(), "  Configuration name (default): ");
    assert_eq!(wizard.answer("   \n"), "");
    assert!(wizard.is_done());
    assert_eq!(wizard.save_name, None);
    // a finished dialogue takes no more answers
    assert_eq!(wizard.answer("again\n"), "");
    assert!(wizard.is_done());
    assert_eq!(wizard.save_name, None);
}
