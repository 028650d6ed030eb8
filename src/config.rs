//! Run configuration: reader settings, output format, sources and destination,
//! and the decoding of the textual settings a user gives for them.

use vstd::prelude::*;
use vstd::string::*;
use crate::assets::OutputFormat;
use crate::input::ReadFrom;

verus! {

/// Which fields the tabular reader trims of surrounding whitespace.
#[derive(Clone, Copy, Debug, PartialEq, Eq, Structural)]
pub enum Trim {
    /// Nothing is trimmed.
    Off,
    Headers,
    Fields,
    All,
}

/// How much the program logs.
#[derive(Clone, Copy, Debug, PartialEq, Eq, Structural)]
pub enum Verbosity {
    Off,
    Info,
    Debug,
    Trace,
}

/// Whether `s` spells exactly the text `lit`.
pub fn same_text(s: &str, lit: &str) -> (r: bool)
    ensures
        r == (s@ == lit@),
{
    let n = s.unicode_len();
    if n != lit.unicode_len() {
        return false;
    }
    let mut i: usize = 0;
    while i < n
        invariant
            n == s@.len(),
            n == lit@.len(),
            i <= n,
            forall|j: int| 0 <= j < i ==> s@[j] == lit@[j],
        decreases n - i,
    {
        if s.get_char(i) != lit.get_char(i) {
            return false;
        }
        i = i + 1;
    }
    assert(s@ =~= lit@);
    true
}

/// The log level asked for: quiet silences everything; otherwise each
/// repetition of the verbosity flag raises the level, up to tracing.
pub fn verbosity(occurrences: u64, quiet: bool) -> (r: Verbosity)
    ensures
        r == if quiet {
            Verbosity::Off
        } else if occurrences == 0 {
            Verbosity::Info
        } else if occurrences == 1 {
            Verbosity::Debug
        } else {
            Verbosity::Trace
        },
{
    if quiet {
        Verbosity::Off
    } else if occurrences == 0 {
        Verbosity::Info
    } else if occurrences == 1 {
        Verbosity::Debug
    } else {
        Verbosity::Trace
    }
}

/// The output format named "prettyj", "json" or "yaml".
pub fn parse_output_format(s: &str) -> (r: Option<OutputFormat>)
    ensures
        r == if s@ == "prettyj"@ {
            Some(OutputFormat::JsonPretty)
        } else if s@ == "json"@ {
            Some(OutputFormat::Json)
        } else if s@ == "yaml"@ {
            Some(OutputFormat::Yaml)
        } else {
            None::<OutputFormat>
        },
{
    if same_text(s, "prettyj") {
        Some(OutputFormat::JsonPretty)
    } else if same_text(s, "json") {
        Some(OutputFormat::Json)
    } else if same_text(s, "yaml") {
        Some(OutputFormat::Yaml)
    } else {
        None
    }
}

/// The trim policy named by a level number or a name: "0"/"none",
/// "1"/"headers", "2"/"fields", "3"/"all".
pub fn parse_trim(s: &str) -> (r: Option<Trim>)
    ensures
        r == if s@ == "0"@ || s@ == "none"@ {
            Some(Trim::Off)
        } else if s@ == "1"@ || s@ == "headers"@ {
            Some(Trim::Headers)
        } else if s@ == "2"@ || s@ == "fields"@ {
            Some(Trim::Fields)
        } else if s@ == "3"@ || s@ == "all"@ {
            Some(Trim::All)
        } else {
            None::<Trim>
        },
{
    if same_text(s, "0") || same_text(s, "none") {
        Some(Trim::Off)
    } else if same_text(s, "1") || same_text(s, "headers") {
        Some(Trim::Headers)
    } else if same_text(s, "2") || same_text(s, "fields") {
        Some(Trim::Fields)
    } else if same_text(s, "3") || same_text(s, "all") {
        Some(Trim::All)
    } else {
        None
    }
}

/// The quoting policy as (double-quote handling, quoting enabled): both on
/// when quotes are not disabled, "double" turns off double-quote handling
/// only, "all" turns off quoting altogether.
pub fn parse_quote_settings(s: Option<&str>) -> (r: Option<(bool, bool)>)
    ensures
        r == match s {
            None => Some((true, true)),
            Some(t) => if t@ == "double"@ {
                Some((false, true))
            } else if t@ == "all"@ {
                Some((false, false))
            } else {
                None::<(bool, bool)>
            },
        },
{
    match s {
        None => Some((true, true)),
        Some(t) => {
            if same_text(t, "double") {
                Some((false, true))
            } else if same_text(t, "all") {
                Some((false, false))
            } else {
                None
            }
        },
    }
}

/// The byte that a character setting names: the two characters `\t` name a
/// tab; otherwise the first byte of the setting counts and the rest is
/// dropped. An empty setting names no byte.
pub fn parse_char_setting(s: &str) -> (r: Option<u8>)
    ensures
        r == if s@ == "\\t"@ {
            Some(9u8)
        } else if s.spec_bytes().len() > 0 {
            Some(s.spec_bytes()[0])
        } else {
            None::<u8>
        },
{
    if same_text(s, "\\t") {
        Some(9u8)
    } else {
        let b = s.as_bytes();
        if b.len() > 0 {
            Some(b[0])
        } else {
            None
        }
    }
}

/// Whether an input argument names the standard input stream.
pub open spec fn is_stdin_arg(s: Seq<char>) -> bool {
    s == seq!['-']
}

/// The input arguments kept when each run of consecutive arguments that agree
/// on naming the standard input stream is collapsed to its first.
pub open spec fn collapsed(list: Seq<Seq<char>>) -> Seq<Seq<char>>
    decreases list.len(),
{
    if list.len() == 0 {
        seq![]
    } else if list.len() >= 2 && is_stdin_arg(list.last()) == is_stdin_arg(
        list[list.len() - 2],
    ) {
        collapsed(list.drop_last())
    } else {
        collapsed(list.drop_last()).push(list.last())
    }
}

/// Collapses each run of consecutive input arguments that agree on naming the
/// standard input stream to its first argument.
pub fn collapse_inputs(list: Vec<String>) -> (r: Vec<String>)
    ensures
        crate::headers::names(r@) == collapsed(crate::headers::names(list@)),
{
    let ghost l = crate::headers::names(list@);
    let mut r: Vec<String> = Vec::new();
    let mut i: usize = 0;
    let mut prev_dash: bool = false;
    while i < list.len()
        invariant
            i <= list@.len(),
            l == crate::headers::names(list@),
            crate::headers::names(r@) == collapsed(l.take(i as int)),
            i > 0 ==> prev_dash == is_stdin_arg(l[i - 1]),
        decreases list.len() - i,
    {
        let dash = same_text(list[i].as_str(), "-");
        proof {
            reveal_strlit("-");
            assert("-"@ =~= seq!['-']);
            assert(l[i as int] == list@[i as int]@);
            assert(dash == is_stdin_arg(l[i as int]));
            assert(l.take(i + 1).drop_last() =~= l.take(i as int));
            assert(l.take(i + 1).last() == l[i as int]);
            if i >= 1 {
                assert(l.take(i + 1)[i - 1] == l[i - 1]);
            }
        }
        if i == 0 || dash != prev_dash {
            r.push(list[i].clone());
        }
        assert(crate::headers::names(r@) =~= collapsed(l.take(i + 1)));
        prev_dash = dash;
        i = i + 1;
    }
    assert(l.take(list@.len() as int) =~= l);
    r
}

/// The settings of the tabular reader, fixed for a whole run.
#[derive(Clone, Copy, Debug, PartialEq, Eq, Structural)]
pub struct ParserConfig {
    pub delimiter: u8,
    pub quote: u8,
    pub escape: Option<u8>,
    pub comment: Option<u8>,
    pub flexible: bool,
    pub trim: Trim,
    /// Whether a doubled quote inside a quoted field stands for one quote.
    pub double_quote: bool,
    /// Whether quotes are recognized at all.
    pub quoting: bool,
}

impl ParserConfig {
    /// Comma-delimited, double-quoted, strict row widths, nothing trimmed.
    pub fn standard() -> (r: ParserConfig)
        ensures
            r == (ParserConfig {
                delimiter: 44u8,
                quote: 34u8,
                escape: None,
                comment: None,
                flexible: false,
                trim: Trim::Off,
                double_quote: true,
                quoting: true,
            }),
    {
        ParserConfig {
            delimiter: 44u8,
            quote: 34u8,
            escape: None,
            comment: None,
            flexible: false,
            trim: Trim::Off,
            double_quote: true,
            quoting: true,
        }
    }
}

/// The resolved configuration of one run.
pub struct ProgramArgs {
    debug_level: Verbosity,
    output_type: OutputFormat,
    reader: Vec<Option<ReadFrom>>,
    writer: (Option<String>, bool),
    parser: ParserConfig,
}

impl ProgramArgs {
    /// Gathers a resolved configuration.
    pub fn new(
        debug_level: Verbosity,
        output_type: OutputFormat,
        reader: Vec<Option<ReadFrom>>,
        writer: (Option<String>, bool),
        parser: ParserConfig,
    ) -> (r: ProgramArgs)
        ensures
            r.debug_level() == debug_level,
            r.output_type() == output_type,
            r.reader_list()@ == reader@,
            r.writer() == writer,
            r.parser() == parser,
    {
        ProgramArgs { debug_level, output_type, reader, writer, parser }
    }

    pub closed spec fn parser(&self) -> ParserConfig {
        self.parser
    }

    /// The log level.
    #[verifier::when_used_as_spec(spec_debug_level)]
    pub fn debug_level(&self) -> (r: Verbosity)
        ensures
            r == self.spec_debug_level(),
    {
        self.debug_level
    }

    pub closed spec fn spec_debug_level(&self) -> Verbosity {
        self.debug_level
    }

    /// The output format.
    #[verifier::when_used_as_spec(spec_output_type)]
    pub fn output_type(&self) -> (r: OutputFormat)
        ensures
            r == self.spec_output_type(),
    {
        self.output_type
    }

    pub closed spec fn spec_output_type(&self) -> OutputFormat {
        self.output_type
    }

    /// The sources, in the order they are read.
    #[verifier::when_used_as_spec(spec_reader_list)]
    pub fn reader_list(&self) -> (r: &Vec<Option<ReadFrom>>)
        ensures
            r == self.spec_reader_list(),
    {
        &self.reader
    }

    pub closed spec fn spec_reader_list(&self) -> &Vec<Option<ReadFrom>> {
        &self.reader
    }

    /// The output file, if any, and whether to append to it.
    #[verifier::when_used_as_spec(spec_writer)]
    pub fn writer(&self) -> (r: &(Option<String>, bool))
        ensures
            r == self.spec_writer(),
    {
        &self.writer
    }

    pub closed spec fn spec_writer(&self) -> &(Option<String>, bool) {
        &self.writer
    }

    /// The field delimiter byte.
    pub fn delimiter(&self) -> (r: u8)
        ensures
            r == self.parser().delimiter,
    {
        self.parser.delimiter
    }

    /// Whether rows may differ in width.
    pub fn flexible(&self) -> (r: bool)
        ensures
            r == self.parser().flexible,
    {
        self.parser.flexible
    }

    /// The escape byte, if any.
    pub fn escape(&self) -> (r: Option<u8>)
        ensures
            r == self.parser().escape,
    {
        self.parser.escape
    }

    /// The comment byte, if any.
    pub fn comment(&self) -> (r: Option<u8>)
        ensures
            r == self.parser().comment,
    {
        self.parser.comment
    }

    /// The quote byte.
    pub fn quote(&self) -> (r: u8)
        ensures
            r == self.parser().quote,
    {
        self.parser.quote
    }

    /// The trim policy.
    pub fn trim_settings(&self) -> (r: Trim)
        ensures
            r == self.parser().trim,
    {
        self.parser.trim
    }

    /// The quoting policy: (double-quote handling, quoting enabled).
    pub fn quote_settings(&self) -> (r: (bool, bool))
        ensures
            r == (self.parser().double_quote, self.parser().quoting),
    {
        (self.parser.double_quote, self.parser.quoting)
    }
}

} // verus!
