use genpass::config::{Cli, Config, NumberAnswer, OptionalAnswer};
use genpass::generator::PasswordConstraints;

fn cli() -> Cli {
    Cli {
        min_numeric: None,
        max_numeric: None,
        min_lower: None,
        max_lower: None,
        min_upper: None,
        max_upper: None,
        min_symbol: None,
        max_symbol: None,
        length: None,
        min_length: None,
        max_length: None,
        symbols: "!@#$%^&*()_+-=[]{}|;:,.<>?".to_string(),
        exclude_ambiguous: false,
        count: 1,
        config: None,
        save_config: None,
        list_configs: false,
    }
}

#[test]
fn test_parse_config() {
    let content = r#"
# Comment line
min-numeric=2
max-numeric=5
min-length=16
symbols=!@#$
exclude-ambiguous=true
count=3
"#;

    let config = Config::parse(content);
    assert_eq!(config.min_numeric, Some(2));
    assert_eq!(config.max_numeric, Some(5));
    assert_eq!(config.min_length, Some(16));
    assert_eq!(config.symbols, Some("!@#$".to_string()));
    assert_eq!(config.exclude_ambiguous, Some(true));
    assert_eq!(config.count, Some(3));
}

#[test]
fn test_parse_empty_config() {
    let content = "";
    let config = Config::parse(content);
    assert_eq!(config.min_numeric, None);
    assert_eq!(config.count, None);
}

#[test]
fn test_parse_with_unknown_keys() {
    let content = r#"
min-numeric=2
unknown-key=value
future-option=123
"#;

    let config = Config::parse(content);
    assert_eq!(config.min_numeric, Some(2));
}

#[test]
fn parse_of_nothing_sets_nothing() {
    assert_eq!(Config::parse(""), Config::default());
    assert_eq!(Config::parse("\n\n  \n# only a comment\n"), Config::default());
    assert_eq!(Config::parse("no equals sign here"), Config::default());
}

#[test]
fn parse_reads_every_key() {
    let config = Config::parse(
        "min-numeric=1\nmax-numeric=2\nmin-lower=3\nmax-lower=4\nmin-upper=5\nmax-upper=6\n\
         min-symbol=7\nmax-symbol=8\nlength=9\nmin-length=10\nmax-length=11\nsymbols=ab\n\
         exclude-ambiguous=false\ncount=12",
    );
    assert_eq!(
        config,
        Config {
            min_numeric: Some(1),
            max_numeric: Some(2),
            min_lower: Some(3),
            max_lower: Some(4),
            min_upper: Some(5),
            max_upper: Some(6),
            min_symbol: Some(7),
            max_symbol: Some(8),
            length: Some(9),
            min_length: Some(10),
            max_length: Some(11),
            symbols: Some("ab".to_string()),
            exclude_ambiguous: Some(false),
            count: Some(12),
        }
    );
}

#[test]
fn parse_ignores_white_space_around_lines_keys_and_values() {
    let config = Config::parse("  \t min-numeric \u{a0}=\u{2003} 42 \r\n\tcount=\t7\u{3000}\r\n");
    assert_eq!(config.min_numeric, Some(42));
    assert_eq!(config.count, Some(7));
}

#[test]
fn parse_splits_at_the_first_equals_sign() {
    let config = Config::parse("symbols==a=b= \n");
    assert_eq!(config.symbols, Some("=a=b=".to_string()));
    let config = Config::parse("symbols=\n");
    assert_eq!(config.symbols, Some(String::new()));
    let config = Config::parse("symbols = # not a comment");
    assert_eq!(config.symbols, Some("# not a comment".to_string()));
}

#[test]
fn parse_skips_comments_after_leading_space() {
    let config = Config::parse("   # count=5\ncount=6\n#count=7");
    assert_eq!(config.count, Some(6));
}

#[test]
fn parse_lets_the_last_line_for_a_key_win() {
    let config = Config::parse("count=1\ncount=2\ncount=3");
    assert_eq!(config.count, Some(3));
}

#[test]
fn parse_clears_a_setting_that_cannot_be_read() {
    let config = Config::parse("count=5\ncount=five\nmin-lower=3\nmin-lower=-3\n");
    assert_eq!(config.count, None);
    assert_eq!(config.min_lower, None);
    let config = Config::parse("exclude-ambiguous=true\nexclude-ambiguous=TRUE\n");
    assert_eq!(config.exclude_ambiguous, None);
    let config = Config::parse("exclude-ambiguous=yes\ncount=\n");
    assert_eq!(config.exclude_ambiguous, None);
    assert_eq!(config.count, None);
}

#[test]
fn parse_reads_numbers_as_the_language_does() {
    for text in ["0", "007", "+5", "+", "-", "-0", "", "1 2", "12a", "٣", "1_000", "+-1", "++1"] {
        let config = Config::parse(&format!("count={}", text));
        assert_eq!(config.count, text.parse::<usize>().ok(), "for {:?}", text);
    }
    let most = usize::MAX.to_string();
    assert_eq!(Config::parse(&format!("count={}", most)).count, Some(usize::MAX));
    assert_eq!(Config::parse(&format!("count=+000{}", most)).count, Some(usize::MAX));
    let beyond = format!("{}0", most);
    assert_eq!(Config::parse(&format!("count={}", beyond)).count, None);
    let next = (usize::MAX as u128 + 1).to_string();
    assert_eq!(Config::parse(&format!("count={}", next)).count, None);
}

#[test]
fn parse_is_case_sensitive_in_keys() {
    let config = Config::parse("Count=3\nMIN-LOWER=2\ncount =4");
    assert_eq!(config.count, Some(4));
    assert_eq!(config.min_lower, None);
}

#[test]
fn render_writes_the_header_and_the_settings_that_are_set() {
    assert_eq!(
        Config::default().render(),
        "# genpass configuration file\n# Generated automatically - edit with caution\n\n"
    );
    let config = Config {
        min_numeric: Some(2),
        max_numeric: None,
        min_lower: None,
        max_lower: Some(0),
        min_upper: None,
        max_upper: None,
        min_symbol: None,
        max_symbol: None,
        length: Some(120),
        min_length: None,
        max_length: None,
        symbols: Some("!=#".to_string()),
        exclude_ambiguous: Some(false),
        count: Some(10),
    };
    assert_eq!(
        config.render(),
        "# genpass configuration file\n# Generated automatically - edit with caution\n\n\
         min-numeric=2\nmax-lower=0\nlength=120\nsymbols=!=#\nexclude-ambiguous=false\ncount=10\n"
    );
}

#[test]
fn render_writes_every_setting_in_order() {
    let config = Config {
        min_numeric: Some(1),
        max_numeric: Some(2),
        min_lower: Some(3),
        max_lower: Some(4),
        min_upper: Some(5),
        max_upper: Some(6),
        min_symbol: Some(7),
        max_symbol: Some(8),
        length: Some(9),
        min_length: Some(10),
        max_length: Some(11),
        symbols: Some("ab".to_string()),
        exclude_ambiguous: Some(true),
        count: Some(usize::MAX),
    };
    let expected = format!(
        "# genpass configuration file\n# Generated automatically - edit with caution\n\n\
         min-numeric=1\nmax-numeric=2\nmin-lower=3\nmax-lower=4\nmin-upper=5\nmax-upper=6\n\
         min-symbol=7\nmax-symbol=8\nlength=9\nmin-length=10\nmax-length=11\nsymbols=ab\n\
         exclude-ambiguous=true\ncount={}\n",
        usize::MAX
    );
    assert_eq!(config.render(), expected);
    assert_eq!(Config::parse(&config.render()), config);
}

#[test]
fn describe_says_the_defaults() {
    let text = Config::default().describe(None);
    assert_eq!(
        text,
        "Configuration: default\n\
         \n\
         Character Type Constraints:\n\
         \x20 Numeric (0-9): no constraint\n\
         \x20 Lowercase (a-z): no constraint\n\
         \x20 Uppercase (A-Z): no constraint\n\
         \x20 Symbols: no constraint\n\
         \n\
         Password Length:\n\
         \x20 Minimum: 16 (default)\n\
         \n\
         Symbol Characters:\n\
         \x20 !@#$%^&*()_+-=[]{}|;:,.<>? (default)\n\
         \n\
         Options:\n\
         \x20 Exclude ambiguous characters: no (default)\n\
         \x20 Password count: 1 (default)\n"
    );
}

#[test]
fn describe_says_each_kind_of_bound() {
    let config = Config {
        min_numeric: Some(2),
        max_numeric: Some(2),
        min_lower: Some(1),
        max_lower: Some(30),
        min_upper: Some(4),
        max_upper: None,
        min_symbol: None,
        max_symbol: Some(0),
        length: None,
        min_length: Some(12),
        max_length: Some(20),
        symbols: Some("#+".to_string()),
        exclude_ambiguous: Some(true),
        count: Some(5),
    };
    assert_eq!(
        config.describe(Some("work")),
        "Configuration: work\n\
         \n\
         Character Type Constraints:\n\
         \x20 Numeric (0-9): exactly 2\n\
         \x20 Lowercase (a-z): 1 to 30\n\
         \x20 Uppercase (A-Z): minimum 4\n\
         \x20 Symbols: maximum 0\n\
         \n\
         Password Length:\n\
         \x20 Minimum: 12\n\
         \x20 Maximum: 20\n\
         \n\
         Symbol Characters:\n\
         \x20 #+\n\
         \n\
         Options:\n\
         \x20 Exclude ambiguous characters: yes\n\
         \x20 Password count: 5\n"
    );
    let config = Config { length: Some(24), exclude_ambiguous: Some(false), ..config };
    let text = config.describe(None);
    assert!(text.contains("Password Length:\n  Exact length: 24\n\nSymbol"));
    assert!(text.contains("  Exclude ambiguous characters: no\n"));
    let config = Config { length: None, min_length: None, ..config };
    assert!(config.describe(None).contains("  Minimum: 16 (default)\n  Maximum: 20\n"));
}

#[test]
fn merge_lets_the_command_line_win_where_it_speaks() {
    let mut config = Config::parse("min-numeric=2\nmax-numeric=5\nlength=20\ncount=3\nsymbols=ab");
    let mut given = cli();
    given.max_numeric = Some(9);
    given.min_lower = Some(1);
    config.merge_with_cli(&given);
    assert_eq!(config.min_numeric, Some(2));
    assert_eq!(config.max_numeric, Some(9));
    assert_eq!(config.min_lower, Some(1));
    assert_eq!(config.length, Some(20));
    assert_eq!(config.count, Some(3));
    assert_eq!(config.symbols, Some("ab".to_string()));
    assert_eq!(config.exclude_ambiguous, None);
}

#[test]
fn merge_fills_symbols_and_count_where_nothing_was_saved() {
    let mut config = Config::default();
    config.merge_with_cli(&cli());
    assert_eq!(config.symbols, Some("!@#$%^&*()_+-=[]{}|;:,.<>?".to_string()));
    assert_eq!(config.count, Some(1));
    assert_eq!(config.exclude_ambiguous, None);
    assert_eq!(config.length, None);
}

#[test]
fn merge_takes_other_symbols_and_another_count() {
    let mut config = Config::parse("symbols=ab\ncount=3\nexclude-ambiguous=false");
    let mut given = cli();
    given.symbols = "#".to_string();
    given.count = 7;
    given.exclude_ambiguous = true;
    config.merge_with_cli(&given);
    assert_eq!(config.symbols, Some("#".to_string()));
    assert_eq!(config.count, Some(7));
    assert_eq!(config.exclude_ambiguous, Some(true));
}

#[test]
fn merge_cannot_tell_the_default_symbols_from_none_given() {
    let mut config = Config::parse("symbols=ab\ncount=3\nexclude-ambiguous=true");
    let mut given = cli();
    given.symbols = "!@#$%^&*()_+-=[]{}|;:,.<>?".to_string();
    given.count = 1;
    config.merge_with_cli(&given);
    assert_eq!(config.symbols, Some("ab".to_string()));
    assert_eq!(config.count, Some(3));
    assert_eq!(config.exclude_ambiguous, Some(true));
}

#[test]
fn constraints_default_to_sixteen_characters() {
    let mut config = Config::default();
    config.merge_with_cli(&cli());
    assert_eq!(
        config.to_constraints(),
        PasswordConstraints {
            min_numeric: None,
            max_numeric: None,
            min_lower: None,
            max_lower: None,
            min_upper: None,
            max_upper: None,
            min_symbol: None,
            max_symbol: None,
            min_length: 16,
            max_length: 16,
            symbols: "!@#$%^&*()_+-=[]{}|;:,.<>?".to_string(),
            exclude_ambiguous: false,
        }
    );
    assert_eq!(Config::default().to_constraints().symbols, "!@#$%^&*()_+-=[]{}|;:,.<>?");
    assert_eq!(config.password_count(), 1);
    assert_eq!(Config::default().password_count(), 1);
}

#[test]
fn constraints_take_the_lengths_that_are_set() {
    let c = Config::parse("length=8\nmin-length=10\nmax-length=12").to_constraints();
    assert_eq!((c.min_length, c.max_length), (8, 8));
    let c = Config::parse("min-length=10\nmax-length=12").to_constraints();
    assert_eq!((c.min_length, c.max_length), (10, 12));
    let c = Config::parse("min-length=10").to_constraints();
    assert_eq!((c.min_length, c.max_length), (10, 10));
    let c = Config::parse("max-length=12").to_constraints();
    assert_eq!((c.min_length, c.max_length), (16, 12));
    let c = Config::parse("min-upper=1\nmax-symbol=2\nsymbols=#\nexclude-ambiguous=true\ncount=4");
    assert_eq!(c.password_count(), 4);
    let c = c.to_constraints();
    assert_eq!(c.min_upper, Some(1));
    assert_eq!(c.max_symbol, Some(2));
    assert_eq!(c.symbols, "#");
    assert!(c.exclude_ambiguous);
}

#[test]
fn answers_are_read_without_the_white_space_around_them() {
    assert_eq!(Config::read_line("  hello world \n"), "hello world");
    assert_eq!(Config::read_line("\r\n"), "");
    assert_eq!(Config::read_line(""), "");
}

#[test]
fn number_answers_fall_back_to_the_default() {
    assert_eq!(Config::read_number("\n", Some(16)), NumberAnswer::Value(16));
    assert_eq!(Config::read_number("\n", None), NumberAnswer::Missing);
    assert_eq!(Config::read_number(" 20 \n", Some(16)), NumberAnswer::Value(20));
    assert_eq!(Config::read_number("twenty\n", Some(16)), NumberAnswer::Invalid);
    assert_eq!(Config::read_number("-1\n", None), NumberAnswer::Invalid);
}

#[test]
fn optional_number_answers_may_be_skipped() {
    assert_eq!(Config::read_optional_number("\n"), OptionalAnswer::Skipped);
    assert_eq!(Config::read_optional_number("3\n"), OptionalAnswer::Value(3));
    assert_eq!(Config::read_optional_number("3x\n"), OptionalAnswer::Invalid);
}

#[test]
fn yes_no_answers_ignore_case_and_fall_back_to_the_default() {
    for yes in ["y", "Y", "yes", "YES", "Yes", " yEs \n"] {
        assert!(Config::read_yes_no(yes, false), "{:?}", yes);
    }
    for no in ["n", "N", "no", "NO", "nO\n"] {
        assert!(!Config::read_yes_no(no, true), "{:?}", no);
    }
    for other in ["", "\n", "maybe", "ye", "yess", "y e s", "ｙ"] {
        assert!(Config::read_yes_no(other, true), "{:?}", other);
        assert!(!Config::read_yes_no(other, false), "{:?}", other);
    }
}

#[test]
fn choices_must_name_an_option() {
    assert_eq!(Config::read_choice(" 1\n", &["1", "2"]), Some("1".to_string()));
    assert_eq!(Config::read_choice("2", &["1", "2"]), Some("2".to_string()));
    assert_eq!(Config::read_choice("3", &["1", "2"]), None);
    assert_eq!(Config::read_choice("", &["1", "2"]), None);
    assert_eq!(Config::read_choice("1", &[]), None);
}
