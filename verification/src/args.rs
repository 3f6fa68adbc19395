//! The command line, as plain values: the command and its arguments.

use vstd::prelude::*;

verus! {

/// Arguments of `create`.
#[derive(Debug)]
pub struct CreateArgs {
    pub tag: String,
    pub with_date: bool,
    pub text: Option<String>,
    pub url: Option<String>,
}

/// Arguments of `list`: which metadata to show.
#[derive(Debug)]
pub struct ListArgs {
    pub with_date: bool,
    pub with_text: bool,
    pub with_url: bool,
}

impl ListArgs {
    /// Whether dates are shown.
    pub fn with_date(&self) -> (b: bool)
        ensures
            b == self.with_date,
    {
        self.with_date
    }

    /// Whether texts are shown.
    pub fn with_text(&self) -> (b: bool)
        ensures
            b == self.with_text,
    {
        self.with_text
    }

    /// Whether urls are shown.
    pub fn with_url(&self) -> (b: bool)
        ensures
            b == self.with_url,
    {
        self.with_url
    }
}

impl Default for ListArgs {
    fn default() -> (r: Self)
        ensures
            !r.with_date && !r.with_text && !r.with_url,
    {
        Self { with_date: false, with_text: false, with_url: false }
    }
}

/// Arguments of `get`: a tag pattern and which metadata to show.
#[derive(Debug)]
pub struct GetArgs {
    pub tag: String,
    pub with_date: bool,
    pub with_text: bool,
    pub with_url: bool,
}

impl GetArgs {
    /// Whether the date is shown.
    pub fn with_date(&self) -> (b: bool)
        ensures
            b == self.with_date,
    {
        self.with_date
    }

    /// Whether the text is shown.
    pub fn with_text(&self) -> (b: bool)
        ensures
            b == self.with_text,
    {
        self.with_text
    }

    /// Whether the url is shown.
    pub fn with_url(&self) -> (b: bool)
        ensures
            b == self.with_url,
    {
        self.with_url
    }
}

/// Arguments of `delete`.
#[derive(Debug)]
pub struct DeleteArgs {
    pub tag: String,
}

/// Arguments of `copy`: with `_tag` set, the tag itself is copied instead of
/// the password.
#[derive(Debug)]
pub struct CopyArgs {
    pub tag: String,
    pub _tag: bool,
}

/// Arguments of `encrypt`: the key, or a file that holds it.
#[derive(Debug)]
pub struct EncryptArgs {
    pub key: Option<String>,
    pub key_file: Option<String>,
}

/// Arguments of `decrypt`: the key, or a file that holds it.
#[derive(Debug)]
pub struct DecryptArgs {
    pub key: Option<String>,
    pub key_file: Option<String>,
}

/// Arguments of `update`.
#[derive(Debug)]
pub struct UpdateArgs {
    pub tag: String,
    pub with_date: bool,
    pub text: Option<String>,
    pub url: Option<String>,
    pub with_password: Option<String>,
}

/// The commands.
#[derive(Debug)]
pub enum Commands {
    Create(CreateArgs),
    List(ListArgs),
    Copy(CopyArgs),
    Get(GetArgs),
    Delete(DeleteArgs),
    Encrypt(EncryptArgs),
    Decrypt(DecryptArgs),
    Update(UpdateArgs),
}

/// The whole command line.
#[derive(Debug)]
pub struct Cli {
    pub command: Commands,
    pub pwd_path: String,
    pub pwd_name: String,
}

/// Where a key that was not given on the command line is read from.
#[derive(Debug)]
pub enum KeySource {
    /// The file with this path.
    File(String),
    /// Standard input, which is not a terminal.
    Stdin,
    /// A prompt on the terminal, without echo.
    Prompt,
}

/// The mathematical value of a `KeySource`.
pub enum KeySourceView {
    File(Seq<char>),
    Stdin,
    Prompt,
}

impl View for KeySource {
    type V = KeySourceView;

    open spec fn view(&self) -> KeySourceView {
        match self {
            KeySource::File(p) => KeySourceView::File(p@),
            KeySource::Stdin => KeySourceView::Stdin,
            KeySource::Prompt => KeySourceView::Prompt,
        }
    }
}

/// Where the key comes from when none is given: the key file if one is
/// named, else standard input when it is not a terminal, else a prompt.
pub open spec fn key_source_spec(key_file: Option<Seq<char>>, stdin_is_tty: bool) -> KeySourceView {
    match key_file {
        Some(p) => KeySourceView::File(p),
        None => if !stdin_is_tty {
            KeySourceView::Stdin
        } else {
            KeySourceView::Prompt
        },
    }
}

/// Chooses where to read a key from.
pub fn key_source(key_file: &Option<String>, stdin_is_tty: bool) -> (r: KeySource)
    ensures
        r@ == key_source_spec(crate::store::opt_view(*key_file), stdin_is_tty),
{
    match key_file {
        Some(p) => KeySource::File(p.clone()),
        None => if !stdin_is_tty {
            KeySource::Stdin
        } else {
            KeySource::Prompt
        },
    }
}

} // verus!
