use std::io;
use std::path::PathBuf;

use vstd::prelude::*;
use vstd::string::StringExecFns;

use crate::model::Board;

verus! {

#[verifier::external_type_specification]
#[verifier::external_body]
pub struct ExIoError(io::Error);

#[verifier::external_type_specification]
#[verifier::external_body]
pub struct ExPathBuf(PathBuf);

/// A failure of the store: a card or column it does not have, data it
/// cannot read, or an operation on a path that failed.
pub enum ProviderError {
    NotFound { id: String },
    Parse { msg: String },
    Io { op: String, path: PathBuf, source: io::Error },
}

/// A store that holds the board: it reads the whole board, and moves a card
/// to a column, either of which may fail.
pub trait Provider {
    fn load_board(&mut self) -> Result<Board, ProviderError>;

    fn move_card(&mut self, card_id: &str, to_col_id: &str) -> Result<(), ProviderError>;
}

/// The kinds of I/O failure that the store tells apart.
pub enum IoKind {
    NotFound,
    InvalidData,
    Other,
}

/// The kind that `io::Error::kind` reports for a failure, as far as the
/// store tells kinds apart.
pub uninterp spec fn kind_of(e: io::Error) -> IoKind;

/// Relies on `io::Error::kind`: which of the kinds the store tells apart
/// the failure is.
#[verifier::external_body]
fn io_kind(err: &io::Error) -> (r: IoKind)
    ensures
        r == kind_of(*err),
{
    match err.kind() {
        io::ErrorKind::NotFound => IoKind::NotFound,
        io::ErrorKind::InvalidData => IoKind::InvalidData,
        _ => IoKind::Other,
    }
}

/// Relies on `io::Error`'s `Display`: the failure's message.
#[verifier::external_body]
fn io_text(err: &io::Error) -> String {
    err.to_string()
}

/// Relies on `PathBuf::clone`: an equal path.
#[verifier::external_body]
fn copy_path(p: &PathBuf) -> (r: PathBuf)
    ensures
        r == *p,
{
    p.clone()
}

/// Relies on `Path::display`: the path as text.
#[verifier::external_body]
fn path_text(p: &PathBuf) -> String {
    p.display().to_string()
}

/// `r` is the I/O error of operation `op` on path `root`, caused by `err`.
pub open spec fn is_io_error(r: ProviderError, op: Seq<char>, root: PathBuf, err: io::Error) -> bool {
    r matches ProviderError::Io { op: o, path, source } && o@ == op && path == root && source == err
}

/// The error for a failed read of the board: unreadable data is a parse
/// error, anything else an I/O error of operation `op` on `root`.
pub fn load_error(kind: IoKind, op: &str, root: &PathBuf, err: io::Error) -> (r: ProviderError)
    ensures
        kind is InvalidData ==> r is Parse,
        !(kind is InvalidData) ==> is_io_error(r, op@, *root, err),
{
    match kind {
        IoKind::InvalidData => ProviderError::Parse { msg: io_text(&err) },
        _ => ProviderError::Io { op: String::from_str(op), path: copy_path(root), source: err },
    }
}

/// The error for a failed read of the board, by the kind of `err`: a parse
/// error for unreadable data, else an I/O error of `op` on `root`.
pub fn map_load_err(op: &str, root: &PathBuf, err: io::Error) -> (r: ProviderError)
    ensures
        kind_of(err) is InvalidData ==> r is Parse,
        !(kind_of(err) is InvalidData) ==> is_io_error(r, op@, *root, err),
{
    let kind = io_kind(&err);
    load_error(kind, op, root, err)
}

/// The error for a failed move of card `card_id`: a missing file means the
/// card is not there, unreadable data is a parse error, anything else an
/// I/O error of `move_card` on `root`.
pub fn move_error(kind: IoKind, card_id: &str, root: &PathBuf, err: io::Error) -> (r: ProviderError)
    ensures
        kind is NotFound ==> (r matches ProviderError::NotFound { id } && id@ == card_id@),
        kind is InvalidData ==> r is Parse,
        kind is Other ==> is_io_error(r, "move_card"@, *root, err),
{
    match kind {
        IoKind::NotFound => ProviderError::NotFound { id: String::from_str(card_id) },
        IoKind::InvalidData => ProviderError::Parse { msg: io_text(&err) },
        IoKind::Other => ProviderError::Io {
            op: String::from_str("move_card"),
            path: copy_path(root),
            source: err,
        },
    }
}

/// The error for a failed move of card `card_id`, by the kind of `err`.
pub fn map_move_err(card_id: &str, root: &PathBuf, err: io::Error) -> (r: ProviderError)
    ensures
        kind_of(err) is NotFound ==> (r matches ProviderError::NotFound { id } && id@ == card_id@),
        kind_of(err) is InvalidData ==> r is Parse,
        kind_of(err) is Other ==> is_io_error(r, "move_card"@, *root, err),
{
    let kind = io_kind(&err);
    move_error(kind, card_id, root, err)
}

impl ProviderError {
    /// The message shown for the error.
    pub fn message(&self) -> (r: String)
        ensures
            self matches ProviderError::NotFound { id } ==> r@ == "not found: "@ + id@,
            self matches ProviderError::Parse { msg } ==> r@ == "parse error: "@ + msg@,
            self matches ProviderError::Io { op, .. } ==> (op@ + " failed for "@).is_prefix_of(r@),
    {
        match self {
            ProviderError::NotFound { id } => String::from_str("not found: ").concat(id.as_str()),
            ProviderError::Parse { msg } => String::from_str("parse error: ").concat(msg.as_str()),
            ProviderError::Io { op, path, source } => {
                let head = op.clone().concat(" failed for ");
                let r = head.concat(path_text(path).as_str()).concat(": ").concat(
                    io_text(source).as_str(),
                );
                assert(r@.subrange(0, head@.len() as int) =~= head@);
                assert(head@.is_prefix_of(r@));
                r
            },
        }
    }
}

/// Which store backs the board.
pub enum ProviderKind {
    Jira,
    Local,
}

/// The value is present and equals `word`.
pub open spec fn is_word(v: Option<String>, word: Seq<char>) -> bool {
    v matches Some(s) && s@ == word
}

/// Whether `v` is present and equals `word`.
fn equals_word(v: &Option<String>, word: &str) -> (r: bool)
    ensures
        r == is_word(*v, word@),
{
    match v {
        Some(s) => *s == String::from_str(word),
        None => false,
    }
}

/// The store named by the provider setting: the remote board for `jira`,
/// the local files otherwise.
pub fn choose_provider(provider: Option<String>) -> (r: ProviderKind)
    ensures
        r is Jira <==> is_word(provider, "jira"@),
{
    if equals_word(&provider, "jira") {
        ProviderKind::Jira
    } else {
        ProviderKind::Local
    }
}

/// Where the local board lives.
pub enum BoardRoot {
    /// At this path.
    Path(String),
    /// Under the default place in this home directory.
    Home(String),
    /// At the demo board that ships with the program.
    Demo,
}

/// The local board's root from the settings: an explicit board path first;
/// with the provider set to `local`, its own path or else the home
/// directory's default place; the demo board otherwise.
pub fn choose_board_root(
    board_path: Option<String>,
    provider: Option<String>,
    local_path: Option<String>,
    home: Option<String>,
) -> (r: BoardRoot)
    ensures
        board_path matches Some(p) ==> r == BoardRoot::Path(p),
        board_path is None && is_word(provider, "local"@) ==> match local_path {
            Some(p) => r == BoardRoot::Path(p),
            None => match home {
                Some(h) => r == BoardRoot::Home(h),
                None => r is Demo,
            },
        },
        board_path is None && !is_word(provider, "local"@) ==> r is Demo,
{
    if let Some(p) = board_path {
        return BoardRoot::Path(p);
    }
    if equals_word(&provider, "local") {
        if let Some(p) = local_path {
            return BoardRoot::Path(p);
        }
        if let Some(h) = home {
            return BoardRoot::Home(h);
        }
    }
    BoardRoot::Demo
}

} // verus!
