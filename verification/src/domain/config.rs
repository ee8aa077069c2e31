//! The validated settings of one run.

use crate::cli::Args;
use vstd::prelude::*;

verus! {

/// The largest row limit a configuration accepts.
pub const MAX_ROWS: usize = 10000;

/// Why a configuration was refused.
#[derive(Debug, Clone, Copy, PartialEq, Eq, Structural)]
pub enum ConfigErrorKind {
    /// The delimiter does not fit in one ASCII byte.
    InvalidDelimiter,
    /// The row limit is zero or above [`MAX_ROWS`].
    InvalidRowLimit,
}

/// A refused configuration: the kind of fault and a message for the user.
#[derive(Debug, Clone)]
pub struct ConfigError {
    pub kind: ConfigErrorKind,
    pub message: String,
}

impl ConfigError {
    pub fn new(kind: ConfigErrorKind, message: String) -> (error: Self)
        ensures
            error.kind == kind,
            error.message == message,
    {
        Self { kind, message }
    }

    /// The text shown to the user: the message behind a fixed prefix.
    pub fn to_string(&self) -> (out: String)
        ensures
            out@ == "Configuration error: "@ + self.message@,
    {
        let mut out = String::from_str("Configuration error: ");
        out.append(self.message.as_str());
        out
    }
}

/// Whether `c` is an ASCII character, one that a single byte holds.
pub open spec fn is_ascii_char(c: char) -> bool {
    (c as u32) < 128
}

/// Whether `n` is an acceptable row limit.
pub open spec fn is_row_limit(n: usize) -> bool {
    1 <= n <= MAX_ROWS
}

/// The message for a delimiter that is not ASCII.
pub open spec fn delimiter_message(delimiter: char) -> Seq<char> {
    "Delimiter must be ASCII, got "@.push(delimiter)
}

/// The message for a refused row limit.
pub open spec fn row_limit_message(n: usize) -> Seq<char> {
    if n == 0 {
        "Rows must be > 0"@
    } else {
        "Rows too large (max 10000)"@
    }
}

/// What [`CsvConfig::new`] returns, leaving the text of the message aside.
pub open spec fn checked(delimiter: char, has_headers: bool, max_rows: usize) -> Result<
    CsvConfig,
    ConfigErrorKind,
> {
    if !is_ascii_char(delimiter) {
        Err(ConfigErrorKind::InvalidDelimiter)
    } else if !is_row_limit(max_rows) {
        Err(ConfigErrorKind::InvalidRowLimit)
    } else {
        Ok(CsvConfig { delimiter: delimiter as u8, has_headers, max_rows })
    }
}

/// The delimiter decides first: every character that is not ASCII is
/// refused as an invalid delimiter, whatever the other settings are, and no
/// ASCII character is.
pub proof fn lemma_delimiter_decides(delimiter: char, has_headers: bool, max_rows: usize)
    ensures
        !is_ascii_char(delimiter) ==> checked(delimiter, has_headers, max_rows) == Err::<
            CsvConfig,
            ConfigErrorKind,
        >(ConfigErrorKind::InvalidDelimiter),
        is_ascii_char(delimiter) ==> checked(delimiter, has_headers, max_rows) != Err::<
            CsvConfig,
            ConfigErrorKind,
        >(ConfigErrorKind::InvalidDelimiter),
        is_ascii_char(delimiter) && is_row_limit(max_rows) ==> checked(
            delimiter,
            has_headers,
            max_rows,
        ) is Ok,
{
}

/// With an ASCII delimiter, the row limits from 1 to 10000 are accepted, and
/// every other one, 0 and 10001 among them, is refused as an invalid row
/// limit.
pub proof fn lemma_row_limit_decides(delimiter: char, has_headers: bool, max_rows: usize)
    requires
        is_ascii_char(delimiter),
    ensures
        1 <= max_rows <= 10000 ==> checked(delimiter, has_headers, max_rows) == Ok::<
            CsvConfig,
            ConfigErrorKind,
        >(CsvConfig { delimiter: delimiter as u8, has_headers, max_rows }),
        max_rows == 0 || max_rows > 10000 ==> checked(delimiter, has_headers, max_rows) == Err::<
            CsvConfig,
            ConfigErrorKind,
        >(ConfigErrorKind::InvalidRowLimit),
{
}

/// How a file is to be read: the delimiter byte, whether the first record
/// names the columns, and the largest number of rows to keep.
#[derive(Debug, Clone, Copy, PartialEq, Eq, Structural)]
pub struct CsvConfig {
    pub delimiter: u8,
    pub has_headers: bool,
    pub max_rows: usize,
}

impl CsvConfig {
    /// What every configuration that [`CsvConfig::new`] returns satisfies.
    pub open spec fn is_valid(&self) -> bool {
        self.delimiter < 128 && is_row_limit(self.max_rows)
    }

    /// Validates the three settings. The delimiter is looked at first, so a
    /// delimiter that is not ASCII is reported whatever the row limit is.
    pub fn new(delimiter: char, has_headers: bool, max_rows: usize) -> (out: Result<
        Self,
        ConfigError,
    >)
        ensures
            match out {
                Ok(config) => checked(delimiter, has_headers, max_rows) == Ok::<
                    CsvConfig,
                    ConfigErrorKind,
                >(config) && config.is_valid(),
                Err(error) => checked(delimiter, has_headers, max_rows) == Err::<
                    CsvConfig,
                    ConfigErrorKind,
                >(error.kind) && error.message@ == (if is_ascii_char(delimiter) {
                    row_limit_message(max_rows)
                } else {
                    delimiter_message(delimiter)
                }),
            },
    {
        if (delimiter as u32) >= 128 {
            let mut message = String::from_str("Delimiter must be ASCII, got ");
            message.push(delimiter);
            return Err(ConfigError::new(ConfigErrorKind::InvalidDelimiter, message));
        }
        match Self::validate_rows(max_rows) {
            Err(error) => Err(error),
            Ok(()) => Ok(Self { delimiter: delimiter as u8, has_headers, max_rows }),
        }
    }

    /// Accepts a row limit from 1 to [`MAX_ROWS`].
    pub fn validate_rows(n: usize) -> (out: Result<(), ConfigError>)
        ensures
            out is Ok <==> is_row_limit(n),
            out matches Err(error) ==> error.kind == ConfigErrorKind::InvalidRowLimit
                && error.message@ == row_limit_message(n),
    {
        if n == 0 {
            return Err(
                ConfigError::new(
                    ConfigErrorKind::InvalidRowLimit,
                    String::from_str("Rows must be > 0"),
                ),
            );
        }
        if n > MAX_ROWS {
            return Err(
                ConfigError::new(
                    ConfigErrorKind::InvalidRowLimit,
                    String::from_str("Rows too large (max 10000)"),
                ),
            );
        }
        Ok(())
    }

    /// Builds the configuration from command-line options. The row limit is
    /// looked at first here, then the delimiter.
    pub fn from_args(args: &Args) -> (out: Result<Self, ConfigError>)
        ensures
            match out {
                Ok(config) => is_row_limit(args.rows) && is_ascii_char(args.delimiter)
                    && config.is_valid() && config == (CsvConfig {
                    delimiter: args.delimiter as u8,
                    has_headers: !args.no_header,
                    max_rows: args.rows,
                }),
                Err(error) => if !is_row_limit(args.rows) {
                    error.kind == ConfigErrorKind::InvalidRowLimit && error.message@
                        == row_limit_message(args.rows)
                } else {
                    !is_ascii_char(args.delimiter) && error.kind
                        == ConfigErrorKind::InvalidDelimiter && error.message@
                        == delimiter_message(args.delimiter)
                },
            },
    {
        match Self::validate_rows(args.rows) {
            Err(error) => Err(error),
            Ok(()) => Self::new(args.delimiter, !args.no_header, args.rows),
        }
    }
}

} // verus!
