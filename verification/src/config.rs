//! The options of a search, read from command-line arguments.

use vstd::prelude::*;
use crate::text::{chars_of, has_prefix, parse_count, read_count, texts};

verus! {

/// Why the arguments give no configuration.
#[derive(Debug)]
pub enum ConfigError {
    /// No query was given.
    MissingQuery,
    /// A query was given, but no file name.
    MissingFilename,
    /// A context option carries a value that is no count.
    InvalidContextValue(String),
    /// An argument starts with `-` and is no known option.
    InvalidOption(String),
    /// The usage was asked for, with `-h` or `--help`: nothing is to be
    /// searched.
    HelpRequested,
}

/// A `ConfigError` with the text of its strings.
pub enum ConfigErrorView {
    MissingQuery,
    MissingFilename,
    InvalidContextValue(Seq<char>),
    InvalidOption(Seq<char>),
    HelpRequested,
}

impl View for ConfigError {
    type V = ConfigErrorView;

    open spec fn view(&self) -> ConfigErrorView {
        match self {
            ConfigError::MissingQuery => ConfigErrorView::MissingQuery,
            ConfigError::MissingFilename => ConfigErrorView::MissingFilename,
            ConfigError::InvalidContextValue(value) => ConfigErrorView::InvalidContextValue(value@),
            ConfigError::InvalidOption(option) => ConfigErrorView::InvalidOption(option@),
            ConfigError::HelpRequested => ConfigErrorView::HelpRequested,
        }
    }
}

impl ConfigErrorView {
    /// The error in words.
    pub open spec fn message(self) -> Seq<char> {
        match self {
            ConfigErrorView::MissingQuery => "Missing query string"@,
            ConfigErrorView::MissingFilename => "Missing filename"@,
            ConfigErrorView::InvalidContextValue(value) => "Invalid context value: "@ + value,
            ConfigErrorView::InvalidOption(option) => "Invalid option: "@ + option,
            ConfigErrorView::HelpRequested => "Help requested"@,
        }
    }
}

impl ConfigError {
    /// The error in words.
    pub fn to_string(&self) -> (text: String)
        ensures
            text@ == self@.message(),
    {
        match self {
            ConfigError::MissingQuery => String::from_str("Missing query string"),
            ConfigError::MissingFilename => String::from_str("Missing filename"),
            ConfigError::InvalidContextValue(value) => String::from_str(
                "Invalid context value: ",
            ).concat(value.as_str()),
            ConfigError::InvalidOption(option) => String::from_str("Invalid option: ").concat(
                option.as_str(),
            ),
            ConfigError::HelpRequested => String::from_str("Help requested"),
        }
    }
}

/// What to search for, where, and how.
#[derive(Debug)]
pub struct Config {
    /// The text or pattern to search for.
    pub query: String,
    /// The file or directory to search in.
    pub filename: String,
    /// Whether upper and lower case differ.
    pub case_sensitive: bool,
    /// Whether the query is a regular expression.
    pub use_regex: bool,
    /// How many lines are shown before and after each matching line.
    pub context_lines: usize,
    /// Whether a directory is searched with all that lies below it.
    pub recursive: bool,
}

/// A `Config` with the text of its strings.
pub struct ConfigView {
    pub query: Seq<char>,
    pub filename: Seq<char>,
    pub case_sensitive: bool,
    pub use_regex: bool,
    pub context_lines: usize,
    pub recursive: bool,
}

impl View for Config {
    type V = ConfigView;

    open spec fn view(&self) -> ConfigView {
        ConfigView {
            query: self.query@,
            filename: self.filename@,
            case_sensitive: self.case_sensitive,
            use_regex: self.use_regex,
            context_lines: self.context_lines,
            recursive: self.recursive,
        }
    }
}

impl Default for Config {
    /// A configuration with an empty query and file name, and every option off.
    fn default() -> (config: Config)
        ensures
            config.query@.len() == 0,
            config.filename@.len() == 0,
            !config.case_sensitive,
            !config.use_regex,
            config.context_lines == 0,
            !config.recursive,
    {
        Config {
            query: String::new(),
            filename: String::new(),
            case_sensitive: false,
            use_regex: false,
            context_lines: 0,
            recursive: false,
        }
    }
}

/// The number of context lines that `-c` and `--context` ask for.
pub const DEFAULT_CONTEXT: usize = 2;

/// What one argument asks for.
pub enum Argument {
    IgnoreCase,
    UseRegex,
    Recursive,
    Context(usize),
    BadContext(Seq<char>),
    BadOption,
    Help,
    Positional,
}

/// What a context option with the value `value` asks for.
pub open spec fn context_argument(value: Seq<char>) -> Argument {
    match parse_count(value) {
        Some(count) => Argument::Context(count),
        None => Argument::BadContext(value),
    }
}

/// What the argument `arg` asks for.
pub open spec fn argument(arg: Seq<char>) -> Argument {
    if arg == "-i"@ || arg == "--ignore-case"@ {
        Argument::IgnoreCase
    } else if arg == "-x"@ || arg == "--regex"@ || arg == "-e"@ || arg == "--regexp"@ {
        Argument::UseRegex
    } else if arg == "-r"@ || arg == "--recursive"@ {
        Argument::Recursive
    } else if arg == "-c"@ || arg == "--context"@ {
        Argument::Context(DEFAULT_CONTEXT)
    } else if arg == "-h"@ || arg == "--help"@ {
        Argument::Help
    } else if "-c="@.is_prefix_of(arg) {
        context_argument(arg.skip("-c="@.len() as int))
    } else if "--context="@.is_prefix_of(arg) {
        context_argument(arg.skip("--context="@.len() as int))
    } else if "-"@.is_prefix_of(arg) && arg != "-"@ {
        Argument::BadOption
    } else {
        Argument::Positional
    }
}

/// What the arguments read so far ask for.
pub struct Options {
    pub ignore_case: bool,
    pub use_regex: bool,
    pub recursive: bool,
    pub context_lines: usize,
    pub positionals: Seq<Seq<char>>,
}

/// The options after one more argument, or the outcome that the argument
/// is: the error of a faulty argument, or the request for the usage.
pub open spec fn with_argument(options: Options, arg: Seq<char>) -> Result<Options, ConfigErrorView> {
    match argument(arg) {
        Argument::IgnoreCase => Ok(Options { ignore_case: true, ..options }),
        Argument::UseRegex => Ok(Options { use_regex: true, ..options }),
        Argument::Recursive => Ok(Options { recursive: true, ..options }),
        Argument::Context(count) => Ok(Options { context_lines: count, ..options }),
        Argument::BadContext(value) => Err(ConfigErrorView::InvalidContextValue(value)),
        Argument::BadOption => Err(ConfigErrorView::InvalidOption(arg)),
        Argument::Help => Err(ConfigErrorView::HelpRequested),
        Argument::Positional => Ok(Options { positionals: options.positionals.push(arg), ..options }),
    }
}

/// The options that the arguments ask for, read from first to last. The
/// first argument that is faulty or asks for the usage ends the reading and
/// is the outcome.
pub open spec fn read_options(args: Seq<Seq<char>>) -> Result<Options, ConfigErrorView>
    decreases args.len(),
{
    if args.len() == 0 {
        Ok(
            Options {
                ignore_case: false,
                use_regex: false,
                recursive: false,
                context_lines: 0,
                positionals: Seq::empty(),
            },
        )
    } else {
        match read_options(args.drop_last()) {
            Ok(options) => with_argument(options, args.last()),
            Err(e) => Err(e),
        }
    }
}

/// The configuration that command-line arguments give. The first argument
/// names the program and is passed over. Of the others, those that are no
/// options give the query and the file name, in this order; further ones are
/// ignored. `case_insensitive` makes the search ignore case whatever the
/// options say. No configuration is given where an argument is faulty, where
/// `-h` or `--help` asks for the usage, or where the query or the file name
/// is missing.
pub open spec fn parse_args(args: Seq<Seq<char>>, case_insensitive: bool) -> Result<
    ConfigView,
    ConfigErrorView,
> {
    let given = if args.len() == 0 {
        args
    } else {
        args.drop_first()
    };
    match read_options(given) {
        Err(e) => Err(e),
        Ok(options) => if options.positionals.len() == 0 {
            Err(ConfigErrorView::MissingQuery)
        } else if options.positionals.len() == 1 {
            Err(ConfigErrorView::MissingFilename)
        } else {
            Ok(
                ConfigView {
                    query: options.positionals[0],
                    filename: options.positionals[1],
                    case_sensitive: !case_insensitive && !options.ignore_case,
                    use_regex: options.use_regex,
                    context_lines: options.context_lines,
                    recursive: options.recursive,
                },
            )
        },
    }
}

/// The views of a configuration or of the error in its place.
pub open spec fn result_view(res: Result<Config, ConfigError>) -> Result<ConfigView, ConfigErrorView> {
    match res {
        Ok(config) => Ok(config@),
        Err(e) => Err(e@),
    }
}

/// Whether `chars` spell `word`.
fn spells(chars: &Vec<char>, word: &str) -> (same: bool)
    ensures
        same == (chars@ == word@),
{
    let letters = chars_of(word);
    let same = letters.len() == chars.len() && has_prefix(chars, &letters);
    assert(same ==> chars@ =~= chars@.subrange(0, letters.len() as int));
    same
}

/// Whether `chars` begin with `word`.
fn begins_with(chars: &Vec<char>, word: &str) -> (found: bool)
    ensures
        found == word@.is_prefix_of(chars@),
{
    let letters = chars_of(word);
    has_prefix(chars, &letters)
}

/// The value of a context option: what follows the first `from` characters
/// of the argument, read as a count, or handed back as it stands.
fn context_value(arg: &String, chars: &Vec<char>, from: usize) -> (res: Result<usize, String>)
    requires
        chars@ == arg@,
        from <= chars.len(),
    ensures
        match res {
            Ok(count) => context_argument(arg@.skip(from as int)) == Argument::Context(count),
            Err(value) => context_argument(arg@.skip(from as int)) == Argument::BadContext(value@),
        },
{
    match read_count(chars, from) {
        Some(count) => Ok(count),
        None => {
            let value = arg.as_str().substring_char(from, chars.len()).to_owned();
            assert(value@ =~= arg@.skip(from as int));
            Err(value)
        },
    }
}

/// The options and positional arguments read so far, as they are kept while
/// the arguments are read.
spec fn options_read(
    ignore_case: bool,
    use_regex: bool,
    recursive: bool,
    context_lines: usize,
    positionals: Seq<String>,
) -> Options {
    Options {
        ignore_case,
        use_regex,
        recursive,
        context_lines,
        positionals: texts(positionals),
    }
}

impl Config {
    /// Reads a configuration from command-line arguments, the program's name
    /// first. `case_insensitive` tells that the environment asks for a
    /// search that ignores case. The options are `-i`, `--ignore-case`;
    /// `-x`, `-e`, `--regex`, `--regexp`; `-r`, `--recursive`; `-c`,
    /// `--context`, `-c=N`, `--context=N`; `-h`, `--help`.
    pub fn new(args: Vec<String>, case_insensitive: bool) -> (res: Result<Config, ConfigError>)
        ensures
            result_view(res) == parse_args(texts(args@), case_insensitive),
    {
        let ghost all = texts(args@);
        let ghost given = if all.len() == 0 {
            all
        } else {
            all.drop_first()
        };
        let mut ignore_case = false;
        let mut use_regex = false;
        let mut recursive = false;
        let mut context_lines: usize = 0;
        let mut positionals: Vec<String> = Vec::new();
        let mut i: usize = if args.len() == 0 {
            0
        } else {
            1
        };
        let ghost skipped = i;
        assert(texts(positionals@) =~= Seq::<Seq<char>>::empty());
        assert(given.take(0) =~= Seq::<Seq<char>>::empty());
        while i < args.len()
            invariant
                skipped <= i <= args.len(),
                skipped == all.len() - given.len(),
                all == texts(args@),
                given == if all.len() == 0 {
                    all
                } else {
                    all.drop_first()
                },
                read_options(given.take(i - skipped)) == Ok::<Options, ConfigErrorView>(
                    options_read(ignore_case, use_regex, recursive, context_lines, positionals@),
                ),
            decreases args.len() - i,
        {
            let arg = &args[i];
            let chars = chars_of(arg.as_str());
            let ghost before = given.take(i - skipped);
            let ghost upto = given.take(i - skipped + 1);
            let ghost kept = positionals@;
            assert(upto.drop_last() =~= before);
            assert(upto.last() == arg@);
            proof {
                reveal_strlit("-c=");
                reveal_strlit("--context=");
            }
            if spells(&chars, "-i") || spells(&chars, "--ignore-case") {
                ignore_case = true;
            } else if spells(&chars, "-x") || spells(&chars, "--regex") || spells(&chars, "-e")
                || spells(&chars, "--regexp") {
                use_regex = true;
            } else if spells(&chars, "-r") || spells(&chars, "--recursive") {
                recursive = true;
            } else if spells(&chars, "-c") || spells(&chars, "--context") {
                context_lines = DEFAULT_CONTEXT;
            } else if spells(&chars, "-h") || spells(&chars, "--help") {
                proof {
                    assert(read_options(upto) == Err::<Options, ConfigErrorView>(
                        ConfigErrorView::HelpRequested,
                    ));
                    lemma_error_stays(given, i - skipped + 1);
                }
                return Err(ConfigError::HelpRequested);
            } else if begins_with(&chars, "-c=") {
                match context_value(arg, &chars, 3) {
                    Ok(count) => {
                        context_lines = count;
                    },
                    Err(value) => {
                        proof {
                            assert(read_options(upto) == Err::<Options, ConfigErrorView>(
                                ConfigErrorView::InvalidContextValue(value@),
                            ));
                            lemma_error_stays(given, i - skipped + 1);
                        }
                        return Err(ConfigError::InvalidContextValue(value));
                    },
                }
            } else if begins_with(&chars, "--context=") {
                match context_value(arg, &chars, 10) {
                    Ok(count) => {
                        context_lines = count;
                    },
                    Err(value) => {
                        proof {
                            assert(read_options(upto) == Err::<Options, ConfigErrorView>(
                                ConfigErrorView::InvalidContextValue(value@),
                            ));
                            lemma_error_stays(given, i - skipped + 1);
                        }
                        return Err(ConfigError::InvalidContextValue(value));
                    },
                }
            } else if begins_with(&chars, "-") && !spells(&chars, "-") {
                proof {
                    assert(read_options(upto) == Err::<Options, ConfigErrorView>(
                        ConfigErrorView::InvalidOption(arg@),
                    ));
                    lemma_error_stays(given, i - skipped + 1);
                }
                return Err(ConfigError::InvalidOption(arg.clone()));
            } else {
                positionals.push(arg.clone());
                assert(texts(positionals@) =~= texts(kept).push(arg@));
            }
            i = i + 1;
        }
        assert(given.take(i - skipped) =~= given);
        if positionals.len() == 0 {
            return Err(ConfigError::MissingQuery);
        }
        if positionals.len() == 1 {
            return Err(ConfigError::MissingFilename);
        }
        Ok(
            Config {
                query: positionals[0].clone(),
                filename: positionals[1].clone(),
                case_sensitive: !case_insensitive && !ignore_case,
                use_regex,
                context_lines,
                recursive,
            },
        )
    }
}

/// Once an argument has ended the reading, the arguments after it change
/// nothing.
proof fn lemma_error_stays(args: Seq<Seq<char>>, k: int)
    requires
        0 <= k <= args.len(),
        read_options(args.take(k)) is Err,
    ensures
        read_options(args) == read_options(args.take(k)),
    decreases args.len() - k,
{
    if k < args.len() {
        assert(args.take(k + 1).drop_last() =~= args.take(k));
        lemma_error_stays(args, k + 1);
    } else {
        assert(args.take(k) =~= args);
    }
}

/// `-h` and `--help` ask for the usage, whatever was read before them: they
/// are options of their own, and no invalid ones.
pub proof fn lemma_help_is_an_option(options: Options)
    ensures
        argument("-h"@) == Argument::Help,
        argument("--help"@) == Argument::Help,
        with_argument(options, "-h"@) == Err::<Options, ConfigErrorView>(
            ConfigErrorView::HelpRequested,
        ),
        with_argument(options, "--help"@) == Err::<Options, ConfigErrorView>(
            ConfigErrorView::HelpRequested,
        ),
{
    reveal_strlit("-h");
    reveal_strlit("--help");
    reveal_strlit("-i");
    reveal_strlit("--ignore-case");
    reveal_strlit("-x");
    reveal_strlit("--regex");
    reveal_strlit("-e");
    reveal_strlit("--regexp");
    reveal_strlit("-r");
    reveal_strlit("--recursive");
    reveal_strlit("-c");
    reveal_strlit("--context");
    let short = "-h"@;
    let long = "--help"@;
    assert(short[1] == 'h');
    assert(long[2] == 'h');
    assert("-i"@[1] == 'i' && "-x"@[1] == 'x' && "-e"@[1] == 'e' && "-r"@[1] == 'r' && "-c"@[1]
        == 'c');
    assert(argument(short) == Argument::Help);
    assert(argument(long) == Argument::Help);
}

} // verus!
