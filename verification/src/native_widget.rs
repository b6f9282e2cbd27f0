//! The operations that the embedding UI calls: launching and closing the
//! widget, handing it the auth token, and reading its refresh trigger.
//!
//! Nothing here touches the file system or starts a process. Each operation
//! says what the host has to do, or takes what the host has read, so that
//! every decision is made here and the host only carries it out.

use vstd::prelude::*;
use vstd::string::StringSliceAdditionalSpecFns;
use vstd::utf8::{decode_utf8, encode_utf8, encode_utf8_decode_utf8, encode_utf8_valid_utf8, valid_utf8};
use crate::handshake::{
    auth_token_path, auth_token_path_of, is_absolute, lemma_handshake_files_differ,
    lemma_joined_is_absolute, refresh_trigger_path_of, AUTH_TOKEN_FILE, WIDGET_PROGRAM,
};
use crate::numeral::{
    chars_are_numeral, is_digit, is_numeral, lemma_numeral_has_no_whitespace,
    lemma_numeral_is_no_word,
};
use crate::text::{
    all_whitespace, lemma_trim_end_is_take, lemma_trim_start_is_skip, lemma_trimmed_ignores_padding,
    to_chars, trim, trimmed,
};

verus! {

/// How to start a process.
#[derive(Debug, PartialEq, Eq)]
pub struct WidgetCommand {
    /// The executable, relative to the host's working directory.
    pub program: String,
    pub args: Vec<String>,
    /// Whether the process is left to itself: the host does not pipe its
    /// standard streams, does not wait for it to end and keeps no handle to
    /// it.
    pub detached: bool,
}

/// A command as plain values.
pub struct WidgetCommandView {
    pub program: Seq<char>,
    pub args: Seq<Seq<char>>,
    pub detached: bool,
}

impl View for WidgetCommand {
    type V = WidgetCommandView;

    open spec fn view(&self) -> WidgetCommandView {
        WidgetCommandView {
            program: self.program@,
            args: self.args@.map_values(|arg: String| arg@),
            detached: self.detached,
        }
    }
}

/// The command that starts the widget: its fixed program, without
/// arguments, left to itself.
pub open spec fn widget_command() -> WidgetCommandView {
    WidgetCommandView { program: WIDGET_PROGRAM@, args: Seq::empty(), detached: true }
}

/// What a launcher operation asks of the host.
#[derive(Debug, PartialEq, Eq)]
pub enum WidgetAction {
    /// Start the widget as a new process and do not wait for it.
    Spawn(WidgetCommand),
    /// Do nothing.
    Nothing,
}

/// A launcher's request as plain values.
pub enum WidgetActionView {
    Spawn(WidgetCommandView),
    Nothing,
}

impl View for WidgetAction {
    type V = WidgetActionView;

    open spec fn view(&self) -> WidgetActionView {
        match self {
            WidgetAction::Spawn(command) => WidgetActionView::Spawn(command@),
            WidgetAction::Nothing => WidgetActionView::Nothing,
        }
    }
}

/// The command that starts the widget.
pub fn native_widget_command() -> (command: WidgetCommand)
    ensures
        command@ == widget_command(),
{
    let command = WidgetCommand {
        program: String::from_str(WIDGET_PROGRAM),
        args: Vec::new(),
        detached: true,
    };
    assert(command@.args =~= Seq::empty());
    command
}

/// Launches the widget: asks the host to spawn its executable. Each call
/// asks for a new process; running widgets are not tracked.
pub fn create_native_timer_widget() -> (action: WidgetAction)
    ensures
        action@ == WidgetActionView::Spawn(widget_command()),
{
    WidgetAction::Spawn(native_widget_command())
}

/// Closes the widget. No running widget is known to the launcher, so the
/// host is asked to do nothing.
pub fn close_native_timer_widget() -> (action: WidgetAction)
    ensures
        action@ == WidgetActionView::Nothing,
{
    WidgetAction::Nothing
}

/// A whole-file write: the file at `path` is created where it is missing and
/// truncated where it exists, and `contents` become all that it holds.
#[derive(Debug, PartialEq, Eq)]
pub struct FileWrite {
    pub path: String,
    pub contents: Vec<u8>,
}

/// A file write as plain values.
pub struct FileWriteView {
    pub path: Seq<char>,
    pub contents: Seq<u8>,
}

impl View for FileWrite {
    type V = FileWriteView;

    open spec fn view(&self) -> FileWriteView {
        FileWriteView { path: self.path@, contents: self.contents@ }
    }
}

impl FileWriteView {
    /// The files after the write, given the files before it, each file's
    /// contents under its path.
    pub open spec fn apply(self, files: Map<Seq<char>, Seq<u8>>) -> Map<Seq<char>, Seq<u8>> {
        files.insert(self.path, self.contents)
    }
}

/// The write that hands `token` to the widget: the token's bytes, and
/// nothing else, to the auth-token file in `temp_dir`.
pub open spec fn token_write(temp_dir: Seq<char>, token: Seq<char>) -> FileWriteView {
    FileWriteView { path: auth_token_path_of(temp_dir), contents: encode_utf8(token) }
}

/// The token file could not be written.
#[derive(Debug, PartialEq, Eq)]
pub struct IoError {
    /// What the operating system said of the failure.
    pub os_message: String,
}

impl IoError {
    /// The text that the caller of the token write is given.
    pub open spec fn message(self) -> Seq<char> {
        "Failed to write token file: "@ + self.os_message@
    }

    /// The error as text for the caller.
    pub fn to_message(&self) -> (text: String)
        ensures
            text@ == self.message(),
    {
        let mut text = String::from_str("Failed to write token file: ");
        text.append(self.os_message.as_str());
        text
    }
}

/// Stores the auth token for the widget: says which file the host has to
/// write, and what into it. The token is not inspected; an empty one gives an
/// empty file.
pub fn write_auth_token_to_file(temp_dir: &str, token: &str) -> (write: FileWrite)
    ensures
        write@ == token_write(temp_dir@, token@),
        is_absolute(temp_dir@) ==> is_absolute(write.path@),
{
    proof {
        if is_absolute(temp_dir@) {
            lemma_joined_is_absolute(temp_dir@, AUTH_TOKEN_FILE@);
        }
    }
    FileWrite { path: auth_token_path(temp_dir), contents: token.as_bytes_vec() }
}

/// How many characters of a token may be shown in a log.
pub const TOKEN_PREVIEW_CHARS: usize = 20;

/// The start of the token that may be shown in a log: its first
/// [`TOKEN_PREVIEW_CHARS`] characters, or all of it where it has fewer.
pub open spec fn token_preview_of(token: Seq<char>) -> Seq<char> {
    if token.len() <= TOKEN_PREVIEW_CHARS {
        token
    } else {
        token.take(TOKEN_PREVIEW_CHARS as int)
    }
}

/// The part of the token for the log.
pub fn token_preview(token: &str) -> (preview: &str)
    ensures
        preview@ == token_preview_of(token@),
{
    let shown: usize = token.unicode_len();
    if shown <= TOKEN_PREVIEW_CHARS {
        token
    } else {
        token.substring_char(0, TOKEN_PREVIEW_CHARS)
    }
}

impl FileWrite {
    /// What the caller learns of the write once the host has tried it: the
    /// path written to, or the error with the system's message. `failure` is
    /// `None` where the write succeeded.
    pub fn conclude(self, failure: Option<String>) -> (result: Result<String, IoError>)
        ensures
            failure is None ==> result == Ok::<String, IoError>(self.path),
            failure matches Some(os_message) ==> result == Err::<String, IoError>(
                IoError { os_message },
            ),
    {
        match failure {
            None => Ok(self.path),
            Some(os_message) => Err(IoError { os_message }),
        }
    }
}

/// After the token was written, the token file holds the token's text and
/// nothing else, byte for byte: decoding the file gives the token back.
pub proof fn lemma_token_round_trip(
    files: Map<Seq<char>, Seq<u8>>,
    temp_dir: Seq<char>,
    token: Seq<char>,
)
    ensures
        ({
            let after = token_write(temp_dir, token).apply(files);
            let path = auth_token_path_of(temp_dir);
            &&& after.contains_key(path)
            &&& valid_utf8(after[path])
            &&& decode_utf8(after[path]) == token
        }),
{
    encode_utf8_valid_utf8(token);
    encode_utf8_decode_utf8(token);
}

/// A second token replaces the first: the token file holds the second
/// token and nothing of the first, and the files are as if the first had
/// never been written.
pub proof fn lemma_token_overwrite(
    files: Map<Seq<char>, Seq<u8>>,
    temp_dir: Seq<char>,
    first: Seq<char>,
    second: Seq<char>,
)
    ensures
        ({
            let after_both = token_write(temp_dir, second).apply(
                token_write(temp_dir, first).apply(files),
            );
            &&& after_both == token_write(temp_dir, second).apply(files)
            &&& after_both[auth_token_path_of(temp_dir)] == encode_utf8(second)
            &&& decode_utf8(after_both[auth_token_path_of(temp_dir)]) == second
        }),
{
    encode_utf8_decode_utf8(second);
}

/// Writing the token leaves every other file as it was, the refresh-trigger
/// file among them.
pub proof fn lemma_token_write_spares_other_files(
    files: Map<Seq<char>, Seq<u8>>,
    temp_dir: Seq<char>,
    token: Seq<char>,
)
    ensures
        ({
            let after = token_write(temp_dir, token).apply(files);
            &&& after.remove(auth_token_path_of(temp_dir)) == files.remove(
                auth_token_path_of(temp_dir),
            )
            &&& after.contains_key(refresh_trigger_path_of(temp_dir)) == files.contains_key(
                refresh_trigger_path_of(temp_dir),
            )
            &&& after[refresh_trigger_path_of(temp_dir)] == files[refresh_trigger_path_of(temp_dir)]
        }),
{
    lemma_handshake_files_differ(temp_dir);
    let after = token_write(temp_dir, token).apply(files);
    assert(after.remove(auth_token_path_of(temp_dir)) =~= files.remove(
        auth_token_path_of(temp_dir),
    ));
}

/// The numeral that stands for "no signal".
pub const NO_SIGNAL: &'static str = "0.0";

/// The timestamp that the trigger file reports, as a numeral. `contents` is
/// the file's text, `None` where the file is missing or unreadable. A file
/// that holds a decimal number between optional whitespace reports that
/// number as it is written; every other state of the file reports
/// [`NO_SIGNAL`], also one that holds a word such as `nan` or `inf`.
pub open spec fn refresh_trigger(contents: Option<Seq<char>>) -> Seq<char> {
    match contents {
        Some(text) if is_numeral(trimmed(text)) => trimmed(text),
        _ => NO_SIGNAL@,
    }
}

/// Reads the refresh trigger from what the host found in the trigger file.
/// Never fails: a missing, unreadable or malformed file reads as
/// [`NO_SIGNAL`]. The numeral is handed on as it stands in the file, with no
/// check of its range or age.
pub fn check_dashboard_refresh_trigger(contents: Option<&str>) -> (numeral: String)
    ensures
        numeral@ == refresh_trigger(
            match contents {
                Some(text) => Some(text@),
                None => None,
            },
        ),
{
    match contents {
        Some(text) => {
            let core = trim(text);
            let chars = to_chars(core);
            if chars_are_numeral(chars.as_slice()) {
                String::from_str(core)
            } else {
                String::from_str(NO_SIGNAL)
            }
        },
        None => String::from_str(NO_SIGNAL),
    }
}

/// Whatever the trigger file holds, the timestamp read from it is a decimal
/// number: it holds a digit and is never a word, so it is not `nan`.
pub proof fn lemma_refresh_trigger_is_numeral(contents: Option<Seq<char>>)
    ensures
        is_numeral(refresh_trigger(contents)),
        exists|i: int|
            0 <= i < refresh_trigger(contents).len() && is_digit(
                #[trigger] refresh_trigger(contents)[i],
            ),
{
    lemma_no_signal_is_numeral();
    lemma_numeral_is_no_word(refresh_trigger(contents));
}

/// Whitespace before and after the file's text does not change the
/// timestamp read from it.
pub proof fn lemma_refresh_trigger_ignores_padding(
    lead: Seq<char>,
    text: Seq<char>,
    trail: Seq<char>,
)
    requires
        all_whitespace(lead),
        all_whitespace(trail),
    ensures
        refresh_trigger(Some(lead + text + trail)) == refresh_trigger(Some(text)),
{
    lemma_trimmed_ignores_padding(lead, text, trail);
}

/// What was read from the trigger file reads the same when it is written
/// to a trigger file and read again.
pub proof fn lemma_refresh_trigger_is_stable(contents: Option<Seq<char>>)
    ensures
        refresh_trigger(Some(refresh_trigger(contents))) == refresh_trigger(contents),
{
    let numeral = refresh_trigger(contents);
    lemma_refresh_trigger_is_numeral(contents);
    lemma_numeral_has_no_whitespace(numeral);
    lemma_no_signal_is_numeral();
    // A numeral is not empty, and neither end of it is whitespace.
    assert(numeral.len() > 0) by {
        reveal_strlit("0.0");
    }
    lemma_trim_start_is_skip(numeral, 0);
    lemma_trim_end_is_take(numeral, numeral.len() as int);
}

/// "0.0" is a numeral.
proof fn lemma_no_signal_is_numeral()
    ensures
        is_numeral(NO_SIGNAL@),
{
    reveal_strlit("0.0");
}

} // verus!
