//! The configuration: its values, their defaults, and the reader of the
//! block-structured file that overrides them.
//!
//! A file is a run of lines, each read without the white space at its ends.
//! Outside a block, a line that ends in `{` opens a block; its name is what
//! is left of the line when every `{` is taken out. A line that is `}` closes
//! the block. Any other line that is not blank is a setting, `key = value`,
//! split at its first `=`; a line without `=` is an error. Blocks do not
//! nest. Letter case does not matter: each line is lower-cased before it is
//! read. Blocks and keys that are not known are passed over.

use crate::number::{number, parse_number, NumberFault};
use crate::template::{compiled, is_template, parse_date};
use crate::text::{
    chars_of, decimal, find, first_index, lemma_split_nonempty, lowercase_of,
    pieces_view, push_decimal, remove_all, same_text, slice, split, split_at_each, text_of,
    texts, to_lowercase, trim, trimmed, without,
};
use vstd::prelude::*;
use vstd::string::*;

verus! {

/// How lists are shown.
#[derive(Clone, Debug, PartialEq, Eq)]
pub struct Ui {
    /// Whether due dates are coloured by urgency.
    pub colors: bool,
    /// Whether a task takes one line instead of two.
    pub compact: bool,
}

/// How dates are read and shown.
#[derive(Clone, Debug, PartialEq, Eq)]
pub struct Date {
    /// The strftime format in which dates are entered and shown.
    pub format: String,
    /// How many days ahead a due date counts as due soon.
    pub warn_days_before: i32,
}

/// All settings.
#[derive(Clone, Debug, PartialEq, Eq)]
pub struct Config {
    pub ui: Ui,
    pub date: Date,
}

/// A configuration as plain values.
pub struct ConfigView {
    pub colors: bool,
    pub compact: bool,
    pub format: Seq<char>,
    pub warn_days_before: int,
}

impl View for Config {
    type V = ConfigView;

    open spec fn view(&self) -> ConfigView {
        ConfigView {
            colors: self.ui.colors,
            compact: self.ui.compact,
            format: self.date.format@,
            warn_days_before: self.date.warn_days_before as int,
        }
    }
}

/// The configuration of a file that sets nothing: colours on, two lines a
/// task, dates as day/month/two-digit year, one day of warning.
pub open spec fn default_config() -> ConfigView {
    ConfigView { colors: true, compact: false, format: "%d/%m/%y"@, warn_days_before: 1 }
}

impl Default for Config {
    fn default() -> (r: Config)
        ensures
            r@ == default_config(),
    {
        Config {
            ui: Ui { colors: true, compact: false },
            date: Date { format: "%d/%m/%y".to_owned(), warn_days_before: 1 },
        }
    }
}

/// Why a configuration file was refused.
#[derive(Clone, Debug, PartialEq, Eq)]
pub enum ConfigError {
    /// A line that is neither blank, nor opens or closes a block, nor holds `=`.
    InvalidLine { line: usize },
    /// A value of a boolean setting other than `true` and `false`.
    InvalidBool { value: String },
    /// A date template with a piece that is no token.
    InvalidDateFormat { template: String },
    /// A value of an integer setting that is no `i32` literal.
    InvalidNumber { value: String, fault: NumberFault },
}

/// An error of the reader as plain values.
pub enum ConfigErrorView {
    InvalidLine { line: nat },
    InvalidBool { value: Seq<char> },
    InvalidDateFormat { template: Seq<char> },
    InvalidNumber { value: Seq<char>, fault: NumberFault },
}

impl View for ConfigError {
    type V = ConfigErrorView;

    open spec fn view(&self) -> ConfigErrorView {
        match self {
            ConfigError::InvalidLine { line } => ConfigErrorView::InvalidLine {
                line: *line as nat,
            },
            ConfigError::InvalidBool { value } => ConfigErrorView::InvalidBool { value: value@ },
            ConfigError::InvalidDateFormat { template } => ConfigErrorView::InvalidDateFormat {
                template: template@,
            },
            ConfigError::InvalidNumber { value, fault } => ConfigErrorView::InvalidNumber {
                value: value@,
                fault: *fault,
            },
        }
    }
}

/// What is wrong with an integer literal, in words.
pub open spec fn fault_message(fault: NumberFault) -> Seq<char> {
    match fault {
        NumberFault::Empty => "cannot parse integer from empty string"@,
        NumberFault::InvalidDigit => "invalid digit found in string"@,
        NumberFault::TooLarge => "number too large to fit in target type"@,
        NumberFault::TooSmall => "number too small to fit in target type"@,
    }
}

impl ConfigErrorView {
    /// The error in words.
    pub open spec fn message(self) -> Seq<char> {
        match self {
            ConfigErrorView::InvalidLine { line } => "invalid config line -| line "@ + decimal(
                line,
            ),
            ConfigErrorView::InvalidBool { value } => "can't parse "@ + value + " into boolean"@,
            ConfigErrorView::InvalidDateFormat { template } => "Invalid date format \""@ + template
                + "\""@,
            ConfigErrorView::InvalidNumber { value, fault } => fault_message(fault),
        }
    }
}

impl ConfigError {
    /// The error in words.
    pub fn message(&self) -> (r: String)
        ensures
            r@ == self@.message(),
    {
        match self {
            ConfigError::InvalidLine { line } => {
                let mut out = "invalid config line -| line ".to_owned();
                push_decimal(&mut out, *line as u64);
                out
            },
            ConfigError::InvalidBool { value } => {
                let mut out = "can't parse ".to_owned();
                out.append(value.as_str());
                out.append(" into boolean");
                out
            },
            ConfigError::InvalidDateFormat { template } => {
                let mut out = "Invalid date format \"".to_owned();
                out.append(template.as_str());
                out.append("\"");
                out
            },
            ConfigError::InvalidNumber { value, fault } => match fault {
                NumberFault::Empty => "cannot parse integer from empty string".to_owned(),
                NumberFault::InvalidDigit => "invalid digit found in string".to_owned(),
                NumberFault::TooLarge => "number too large to fit in target type".to_owned(),
                NumberFault::TooSmall => "number too small to fit in target type".to_owned(),
            },
        }
    }
}

/// What a boolean literal denotes: `true` and `false` are the only ones.
pub open spec fn boolean(raw: Seq<char>) -> Option<bool> {
    if raw == "true"@ {
        Some(true)
    } else if raw == "false"@ {
        Some(false)
    } else {
        None
    }
}

/// Reads a boolean literal; any other text is handed back in the error.
pub fn parse_bool(raw_bool: &str) -> (r: Result<bool, ConfigError>)
    ensures
        match r {
            Ok(b) => boolean(raw_bool@) == Some(b),
            Err(e) => boolean(raw_bool@) is None && e@ == (ConfigErrorView::InvalidBool {
                value: raw_bool@,
            }),
        },
{
    if same_text(raw_bool, "true") {
        Ok(true)
    } else if same_text(raw_bool, "false") {
        Ok(false)
    } else {
        Err(ConfigError::InvalidBool { value: raw_bool.to_owned() })
    }
}

/// The reader between two lines: the block it is in, if any, and the
/// configuration as the lines so far have left it.
#[derive(Clone, Debug, PartialEq, Eq)]
pub struct Loader {
    pub block: Option<String>,
    pub config: Config,
}

/// A reader as plain values.
pub struct LoaderView {
    pub block: Option<Seq<char>>,
    pub config: ConfigView,
}

impl View for Loader {
    type V = LoaderView;

    open spec fn view(&self) -> LoaderView {
        LoaderView {
            block: match self.block {
                Some(name) => Some(name@),
                None => None,
            },
            config: self.config@,
        }
    }
}

/// The reader before the first line: outside any block, all defaults.
pub open spec fn fresh() -> LoaderView {
    LoaderView { block: None, config: default_config() }
}

/// What the setting `key = value` does in the block the reader is in. Only
/// `colors` and `compact` in `ui`, and `format` and `warn_days_before` in
/// `date`, change anything; a value they cannot take is an error.
pub open spec fn assigned(state: LoaderView, key: Seq<char>, value: Seq<char>) -> Result<
    LoaderView,
    ConfigErrorView,
> {
    if state.block == Some("ui"@) {
        if key == "colors"@ {
            match boolean(value) {
                Some(b) => Ok(with_config(state, ConfigView { colors: b, ..state.config })),
                None => Err(ConfigErrorView::InvalidBool { value }),
            }
        } else if key == "compact"@ {
            match boolean(value) {
                Some(b) => Ok(with_config(state, ConfigView { compact: b, ..state.config })),
                None => Err(ConfigErrorView::InvalidBool { value }),
            }
        } else {
            Ok(state)
        }
    } else if state.block == Some("date"@) {
        if key == "format"@ {
            if is_template(value) {
                Ok(with_config(state, ConfigView { format: compiled(value), ..state.config }))
            } else {
                Err(ConfigErrorView::InvalidDateFormat { template: value })
            }
        } else if key == "warn_days_before"@ {
            match number(value) {
                Ok(days) => Ok(
                    with_config(state, ConfigView { warn_days_before: days, ..state.config }),
                ),
                Err(fault) => Err(ConfigErrorView::InvalidNumber { value, fault }),
            }
        } else {
            Ok(state)
        }
    } else {
        Ok(state)
    }
}

/// The reader in the same block with another configuration.
pub open spec fn with_config(state: LoaderView, config: ConfigView) -> LoaderView {
    LoaderView { block: state.block, config }
}

/// What one line, already in lower case, does to the reader. `number` is the
/// line's number in the file, from 1, and is what a syntax error reports.
pub open spec fn read(state: LoaderView, lowered: Seq<char>, number: nat) -> Result<
    LoaderView,
    ConfigErrorView,
> {
    let line = trimmed(lowered);
    if line.len() == 0 {
        Ok(state)
    } else if state.block is None && line.last() == '{' {
        Ok(LoaderView { block: Some(trimmed(without(line, '{'))), config: state.config })
    } else if line == seq!['}'] {
        Ok(LoaderView { block: None, config: state.config })
    } else {
        let at = first_index(line, '=') as int;
        if at >= line.len() {
            Err(ConfigErrorView::InvalidLine { line: number })
        } else {
            assigned(state, trimmed(line.take(at)), trimmed(line.skip(at + 1)))
        }
    }
}

/// A line without the carriage return that ends it, if one does.
pub open spec fn without_return(line: Seq<char>) -> Seq<char> {
    if line.len() > 0 && line.last() == '\r' {
        line.drop_last()
    } else {
        line
    }
}

/// The lines of a text. A line ends at a line feed, or at a carriage return
/// and a line feed; what follows the last line feed is a line too, unless it
/// is empty.
pub open spec fn lines_of(text: Seq<char>) -> Seq<Seq<char>> {
    let pieces = split(text, '\n');
    let count = if pieces.last().len() == 0 {
        pieces.len() - 1
    } else {
        pieces.len() as int
    };
    Seq::new(
        count as nat,
        |i: int|
            if i < pieces.len() - 1 {
                without_return(pieces[i])
            } else {
                pieces[i]
            },
    )
}

/// The reader after the given lines, each lower-cased and then read in turn,
/// or the error of the first line that has one.
pub open spec fn loaded(lines: Seq<Seq<char>>) -> Result<LoaderView, ConfigErrorView>
    decreases lines.len(),
{
    if lines.len() == 0 {
        Ok(fresh())
    } else {
        match loaded(lines.drop_last()) {
            Ok(state) => read(state, lowercase_of(lines.last()), lines.len()),
            Err(e) => Err(e),
        }
    }
}

/// The configuration that a file's text gives.
pub open spec fn config_of(text: Seq<char>) -> Result<ConfigView, ConfigErrorView> {
    match loaded(lines_of(text)) {
        Ok(state) => Ok(state.config),
        Err(e) => Err(e),
    }
}

/// How a reader's step came out, as plain values.
pub open spec fn step_view(r: Result<Loader, ConfigError>) -> Result<LoaderView, ConfigErrorView> {
    match r {
        Ok(loader) => Ok(loader@),
        Err(e) => Err(e@),
    }
}

/// How reading a file came out, as plain values.
pub open spec fn config_view(r: Result<Config, ConfigError>) -> Result<
    ConfigView,
    ConfigErrorView,
> {
    match r {
        Ok(config) => Ok(config@),
        Err(e) => Err(e@),
    }
}

impl Loader {
    /// The reader before the first line.
    pub fn new() -> (r: Loader)
        ensures
            r@ == fresh(),
    {
        Loader { block: None, config: Config::default() }
    }

    /// Applies the setting `key = value` of the block the reader is in.
    fn assign(self, key: &str, value: &str) -> (r: Result<Loader, ConfigError>)
        ensures
            step_view(r) == assigned(self@, key@, value@),
    {
        let mut next = self;
        let in_ui = match &next.block {
            Some(name) => same_text(name.as_str(), "ui"),
            None => false,
        };
        let in_date = match &next.block {
            Some(name) => same_text(name.as_str(), "date"),
            None => false,
        };
        if in_ui {
            if same_text(key, "colors") {
                match parse_bool(value) {
                    Ok(b) => {
                        next.config.ui.colors = b;
                    },
                    Err(e) => {
                        return Err(e);
                    },
                }
            } else if same_text(key, "compact") {
                match parse_bool(value) {
                    Ok(b) => {
                        next.config.ui.compact = b;
                    },
                    Err(e) => {
                        return Err(e);
                    },
                }
            }
        } else if in_date {
            if same_text(key, "format") {
                match parse_date(value) {
                    Ok(format) => {
                        next.config.date.format = format;
                    },
                    Err(e) => {
                        return Err(e);
                    },
                }
            } else if same_text(key, "warn_days_before") {
                match parse_number(value) {
                    Ok(days) => {
                        next.config.date.warn_days_before = days;
                    },
                    Err(fault) => {
                        return Err(ConfigError::InvalidNumber { value: value.to_owned(), fault });
                    },
                }
            }
        }
        Ok(next)
    }

    /// Reads one line that is already in lower case. `number` is its number
    /// in the file, counted from 1.
    pub fn read_line(self, lowered: &str, number: usize) -> (r: Result<Loader, ConfigError>)
        ensures
            step_view(r) == read(self@, lowered@, number as nat),
    {
        let line = trim(&chars_of(lowered));
        let n: usize = line.len();
        if n == 0 {
            return Ok(self);
        }
        if self.block.is_none() && line[n - 1] == '{' {
            let name = trim(&remove_all(&line, '{'));
            return Ok(Loader { block: Some(text_of(&name)), config: self.config });
        }
        if n == 1 && line[0] == '}' {
            assert(line@ =~= seq!['}']);
            return Ok(Loader { block: None, config: self.config });
        }
        let at = find(&line, '=');
        if at >= n {
            return Err(ConfigError::InvalidLine { line: number });
        }
        let key = text_of(&trim(&slice(&line, 0, at)));
        let value = text_of(&trim(&slice(&line, at + 1, n)));
        self.assign(key.as_str(), value.as_str())
    }
}

/// The lines of a text.
pub fn lines(raw: &str) -> (r: Vec<String>)
    ensures
        texts(r@) == lines_of(raw@),
{
    let chars = chars_of(raw);
    let pieces = split_at_each(&chars, '\n');
    proof {
        lemma_split_nonempty(raw@, '\n');
    }
    let total: usize = pieces.len();
    let count: usize = if pieces[total - 1].len() == 0 {
        total - 1
    } else {
        total
    };
    let mut out: Vec<String> = Vec::new();
    let mut i: usize = 0;
    while i < count
        invariant
            i <= count <= total == pieces.len(),
            pieces_view(pieces@) == split(raw@, '\n'),
            count == lines_of(raw@).len(),
            out.len() == i,
            forall|j: int| 0 <= j < i ==> out[j]@ == lines_of(raw@)[j],
        decreases count - i,
    {
        let piece = &pieces[i];
        let m: usize = piece.len();
        let line = if i + 1 < total && m > 0 && piece[m - 1] == '\r' {
            slice(piece, 0, m - 1)
        } else {
            slice(piece, 0, m)
        };
        out.push(text_of(&line));
        i += 1;
    }
    out
}

/// Reads the text of a configuration file. Settings that the text does not
/// hold keep their defaults; the first line in error ends the reading.
pub fn parse_config(raw: &str) -> (r: Result<Config, ConfigError>)
    ensures
        config_view(r) == config_of(raw@),
{
    let all = lines(raw);
    let ghost expected = lines_of(raw@);
    let mut loader = Loader::new();
    let mut i: usize = 0;
    while i < all.len()
        invariant
            i <= all.len(),
            texts(all@) == expected,
            expected == lines_of(raw@),
            loaded(expected.take(i as int)) == Ok::<LoaderView, ConfigErrorView>(loader@),
        decreases all.len() - i,
    {
        proof {
            assert(expected.take(i + 1).drop_last() =~= expected.take(i as int));
        }
        let lowered = to_lowercase(all[i].as_str());
        match loader.read_line(lowered.as_str(), i + 1) {
            Ok(next) => {
                loader = next;
            },
            Err(e) => {
                proof {
                    lemma_loaded_stops(expected, i + 1);
                }
                return Err(e);
            },
        }
        i += 1;
    }
    assert(expected.take(all.len() as int) =~= expected);
    Ok(loader.config)
}

/// Once a line is in error, later lines change nothing.
proof fn lemma_loaded_stops(lines: Seq<Seq<char>>, k: int)
    requires
        0 <= k <= lines.len(),
        loaded(lines.take(k)) is Err,
    ensures
        loaded(lines) == loaded(lines.take(k)),
    decreases lines.len() - k,
{
    if k == lines.len() {
        assert(lines.take(k) =~= lines);
    } else {
        assert(lines.take(k + 1).drop_last() =~= lines.take(k));
        lemma_loaded_stops(lines, k + 1);
    }
}

} // verus!
