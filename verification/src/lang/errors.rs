//! The errors of the language. They are part of its normal work: a text that a user wrote
//! is as often wrong as right.

use vstd::prelude::*;
use vstd::string::StringExecFns;

verus! {

/// `String::push`: `c` is appended to `text`.
pub assume_specification[ std::string::String::push ](text: &mut std::string::String, c: char)
    ensures
        final(text)@ == old(text)@.push(c),
;

/// The decimal digits of `n`, without leading zeros.
pub open spec fn digits(n: nat) -> Seq<char>
    decreases n,
{
    if n < 10 {
        seq![(48 + n) as u8 as char]
    } else {
        digits(n / 10).push((48 + n % 10) as u8 as char)
    }
}

/// Writes `n` in decimal.
pub fn number(n: usize) -> (r: String)
    ensures
        r@ == digits(n as nat),
    decreases n,
{
    if n < 10 {
        let mut text = String::new();
        text.push((48 + n as u8) as char);
        assert(text@ =~= digits(n as nat));
        text
    } else {
        let mut text = number(n / 10);
        text.push((48 + (n % 10) as u8) as char);
        text
    }
}

/// What went wrong in the scanner.
#[derive(Debug)]
pub enum ScanError {
    /// The source text named `file` was not read, for the reason `err`.
    ReaderReadError { file: String, err: String },
    /// The source text is not made of tokens: `err` says where it stops to be.
    ScanError { err: String },
}

/// What a scan error says.
pub open spec fn scan_error_text(error: ScanError) -> Seq<char> {
    match error {
        ScanError::ReaderReadError { file, err } => "Failed to read from input '"@ + file@
            + "': "@ + err@,
        ScanError::ScanError { err } => "Syntax error: "@ + err@,
    }
}

/// What is said of a source text that stops to be made of tokens at the byte `at`; `cut`
/// tells that a token began there and did not go on as it must.
pub open spec fn stop_text(at: nat, cut: bool) -> Seq<char> {
    if cut {
        "incomplete token at byte "@ + digits(at)
    } else {
        "no token at byte "@ + digits(at)
    }
}

impl ScanError {
    /// The error for a source text that stops to be made of tokens at the byte `at`.
    pub fn stopped(at: usize, cut: bool) -> (r: ScanError)
        ensures
            r matches ScanError::ScanError { err } && err@ == stop_text(at as nat, cut),
    {
        let mut err = if cut {
            String::from_str("incomplete token at byte ")
        } else {
            String::from_str("no token at byte ")
        };
        let place = number(at);
        err.append(place.as_str());
        ScanError::ScanError { err }
    }

    /// What this error says.
    pub fn message(&self) -> (r: String)
        ensures
            r@ == scan_error_text(*self),
    {
        match self {
            ScanError::ReaderReadError { file, err } => {
                let mut text = String::from_str("Failed to read from input '");
                text.append(file.as_str());
                text.append("': ");
                text.append(err.as_str());
                text
            },
            ScanError::ScanError { err } => {
                let mut text = String::from_str("Syntax error: ");
                text.append(err.as_str());
                text
            },
        }
    }
}

/// `console::style`, `StyledObject::red`, `StyledObject::bold` and its `Display`: `text`
/// as a terminal shows it in bold red. Whether anything is put around `text` depends on
/// the terminal; `text` itself is always there.
#[verifier::external_body]
fn red_bold(text: &str) -> (r: String)
    ensures
        exists|before: Seq<char>, behind: Seq<char>| r@ == before + text@ + behind,
{
    console::style(text).red().bold().to_string()
}

/// An error that can be shown to the user of a terminal.
pub trait PrettyError {
    /// Whether `text` shows the error by itself, without the source text.
    spec fn is_plain(&self, text: Seq<char>) -> bool;

    /// Whether `text` shows the error with the place in the source text that it is about.
    spec fn is_source(&self, text: Seq<char>) -> bool;

    /// Whether `text` shows the error as several errors, one behind the other.
    spec fn is_multiple(&self, text: Seq<char>) -> bool;

    /// Shows the error by itself.
    fn prettyprint_plain(&self) -> (r: String)
        ensures
            self.is_plain(r@),
    ;

    /// Shows the error with its place in the source text.
    fn prettyprint_source(&self) -> (r: String)
        ensures
            self.is_source(r@),
    ;

    /// Shows the error as several errors.
    fn prettyprint_multiple(&self) -> (r: String)
        ensures
            self.is_multiple(r@),
    ;

    /// Shows the error in every way that it can be shown in: by itself, then with its place
    /// in the source text.
    fn prettyprint_fmt(&self) -> (r: String)
        ensures
            exists|plain: Seq<char>, source: Seq<char>|
                self.is_plain(plain) && self.is_source(source) && r@ == plain + source,
    ;
}

/// Shows the error `err` when it is asked to.
pub struct ErrorPrettyPrinter<'a, E: PrettyError> {
    /// The error to show.
    pub err: &'a E,
}

impl<'a, E: PrettyError> ErrorPrettyPrinter<'a, E> {
    /// What is shown: the error in every way that it can be shown in.
    pub fn text(&self) -> (r: String)
        ensures
            exists|plain: Seq<char>, source: Seq<char>|
                self.err.is_plain(plain) && self.err.is_source(source) && r@ == plain + source,
    {
        self.err.prettyprint_fmt()
    }
}

/// The line that shows an error by itself: the word for an error, as `label` shows it, and
/// what the error says.
pub open spec fn plain_line(label: Seq<char>, message: Seq<char>) -> Seq<char> {
    label + ": "@ + message
}

/// Makes the line that shows an error by itself.
pub fn plain<'a>(label: &str, message: &str) -> (r: String)
    ensures
        r@ == plain_line(label@, message@),
{
    let mut text = String::from_str(label);
    text.append(": ");
    text.append(message);
    text
}

impl ScanError {
    /// A printer that shows this error.
    pub fn prettyprint<'a>(&'a self) -> (r: ErrorPrettyPrinter<'a, ScanError>)
        ensures
            r.err == self,
    {
        ErrorPrettyPrinter { err: self }
    }
}

impl PrettyError for ScanError {
    /// A scan error by itself is the word `error`, as the terminal shows it in bold red,
    /// and what the error says.
    open spec fn is_plain(&self, text: Seq<char>) -> bool {
        exists|before: Seq<char>, behind: Seq<char>|
            text == plain_line(before + "error"@ + behind, scan_error_text(*self))
    }

    /// A scan error is not shown with a place in the source text.
    open spec fn is_source(&self, text: Seq<char>) -> bool {
        text == Seq::<char>::empty()
    }

    /// A scan error is not shown as several errors.
    open spec fn is_multiple(&self, text: Seq<char>) -> bool {
        text == Seq::<char>::empty()
    }

    fn prettyprint_plain(&self) -> (r: String)
    {
        let label = red_bold("error");
        let message = self.message();
        let r = plain(label.as_str(), message.as_str());
        proof {
            let (before, behind) = choose|before: Seq<char>, behind: Seq<char>|
                label@ == before + "error"@ + behind;
            assert(r@ == plain_line(before + "error"@ + behind, scan_error_text(*self)));
        }
        r
    }

    fn prettyprint_source(&self) -> (r: String)
    {
        String::new()
    }

    fn prettyprint_multiple(&self) -> (r: String)
    {
        String::new()
    }

    fn prettyprint_fmt(&self) -> (r: String)
    {
        let mut text = self.prettyprint_plain();
        let ghost plain = text@;
        let source = self.prettyprint_source();
        text.append(source.as_str());
        assert(self.is_plain(plain) && self.is_source(source@) && text@ == plain + source@);
        text
    }
}

} // verus!
