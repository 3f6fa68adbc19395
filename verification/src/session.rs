//! Running a command. The program around the library repeatedly asks `App::run`
//! what to do next, given what it has gathered so far: each step names
//! effects to perform and, unless the command is finished, the one input it
//! needs next.

use vstd::prelude::*;
use crate::args::{
    key_source, key_source_spec, Cli, Commands, CopyArgs, CreateArgs, DecryptArgs, DeleteArgs,
    EncryptArgs, GetArgs, KeySource, KeySourceView, ListArgs, UpdateArgs,
};
use crate::crypto::{
    aead_open_result, decrypt_content, decryption, encrypt_content, is_utf8_text, sealed_under, sha256,
    MAX_PLAINTEXT_LEN,
    SEAL_OVERHEAD,
};
use vstd::utf8::{encode_utf8, valid_utf8};
use crate::fresh::{
    created_metadata, generate_password, is_generated_password, metadata_from_ok, read_clock, ClockReading,
};
use crate::output::{
    effects_view, entry_effects, print, show_entry, show_store, store_effects, Effect,
    EffectView,
};
use crate::paths::{expanded, joined};
use crate::pattern::{regex_compiles, regex_is_match, Pattern};
use crate::store::{
    any_match, created, deleted, has_tag, is_best_match, lemma_best_match_unique, matches_at, opt_view,
    patched,
    tag_index, EntryView, Format, Metadata, MetadataView, PasswordEntry, StoreView, Timestamp,
};

verus! {

/// What the program has gathered for the command so far.
pub struct Progress {
    /// The store file, read and parsed.
    pub store: Option<Format>,
    /// The store file's bytes, unparsed.
    pub raw: Option<Vec<u8>>,
    /// Whether standard input is a terminal.
    pub stdin_is_tty: Option<bool>,
    /// The key, read from where the `Key` need said.
    pub key: Option<String>,
    /// Everything read from standard input.
    pub piped: Option<String>,
}

/// The mathematical value of a `Progress`.
pub struct ProgressView {
    pub store: Option<StoreView>,
    pub raw: Option<Seq<u8>>,
    pub stdin_is_tty: Option<bool>,
    pub key: Option<Seq<char>>,
    pub piped: Option<Seq<char>>,
}

impl View for Progress {
    type V = ProgressView;

    open spec fn view(&self) -> ProgressView {
        ProgressView {
            store: match self.store {
                Some(f) => Some(f@),
                None => None,
            },
            raw: match self.raw {
                Some(b) => Some(b@),
                None => None,
            },
            stdin_is_tty: self.stdin_is_tty,
            key: opt_view(self.key),
            piped: opt_view(self.piped),
        }
    }
}

impl Progress {
    /// Nothing gathered yet.
    pub fn new() -> (r: Progress)
        ensures
            r@ == (ProgressView {
                store: None,
                raw: None,
                stdin_is_tty: None,
                key: None,
                piped: None,
            }),
    {
        Progress { store: None, raw: None, stdin_is_tty: None, key: None, piped: None }
    }
}

/// The input a command needs next.
#[derive(Debug)]
pub enum Need {
    /// The store file, parsed.
    Store,
    /// The store file's bytes.
    Raw,
    /// Whether standard input is a terminal.
    StdinKind,
    /// The key, from this source.
    Key(KeySource),
    /// All of standard input.
    Piped,
}

/// The mathematical value of a `Need`.
pub enum NeedView {
    Store,
    Raw,
    StdinKind,
    Key(KeySourceView),
    Piped,
}

impl View for Need {
    type V = NeedView;

    open spec fn view(&self) -> NeedView {
        match self {
            Need::Store => NeedView::Store,
            Need::Raw => NeedView::Raw,
            Need::StdinKind => NeedView::StdinKind,
            Need::Key(k) => NeedView::Key(k@),
            Need::Piped => NeedView::Piped,
        }
    }
}

/// Effects to perform now, and the input needed next (`None`: finished).
#[derive(Debug)]
pub struct Step {
    pub effects: Vec<Effect>,
    pub next: Option<Need>,
    /// The clock reading that the step's effects were made with, where the
    /// command read the clock.
    pub clock: Option<ClockReading>,
}

/// The time of the clock reading that a step used.
pub open spec fn step_clock(r: Step) -> Option<Timestamp> {
    match r.clock {
        Some(c) => Some(c@),
        None => None,
    }
}

/// The mathematical value of a `Step`.
pub struct StepView {
    pub effects: Seq<EffectView>,
    pub next: Option<NeedView>,
}

impl View for Step {
    type V = StepView;

    open spec fn view(&self) -> StepView {
        StepView {
            effects: effects_view(self.effects@),
            next: match self.next {
                Some(n) => Some(n@),
                None => None,
            },
        }
    }
}

/// A finishing step with these effects.
pub open spec fn done(effects: Seq<EffectView>) -> StepView {
    StepView { effects, next: None }
}

/// A step that performs nothing and asks for `n`.
pub open spec fn need(n: NeedView) -> StepView {
    StepView { effects: Seq::empty(), next: Some(n) }
}

/// The messages for a tag that is taken.
pub open spec fn taken_tag_effects(tag: Seq<char>) -> Seq<EffectView> {
    seq![
        EffectView::PrintErr("Error: Already existing tag!"@),
        EffectView::PrintErr("The provided tag '"@ + tag + "' already exist, try another one!"@),
    ]
}

/// The messages for an empty tag.
pub open spec fn missing_tag_effects() -> Seq<EffectView> {
    seq![
        EffectView::PrintErr("Error: Missing tag!"@),
        EffectView::PrintErr("Expected a tag name after 'mmp delete' , but got None"@),
    ]
}

/// The messages for a tag that no entry carries.
pub open spec fn no_such_tag_effects(tag: Seq<char>) -> Seq<EffectView> {
    seq![
        EffectView::PrintErr("Error: Tag does not exist!"@),
        EffectView::PrintErr("Entry `"@ + tag + "` does not exist"@),
    ]
}

/// The message for an empty store.
pub open spec fn no_passwords_effects() -> Seq<EffectView> {
    seq![EffectView::Print("No passwords generated!"@)]
}

/// The message with which a date from a clock set before 1970 stops the program.
pub open spec fn clock_message() -> Seq<char> {
    "SystemTime must be later than UNIX_EPOCH"@
}

/// The message with which an invalid tag pattern stops the program.
pub open spec fn pattern_message() -> Seq<char> {
    "invalid regular expression"@
}

/// The message with which sealing an empty or oversized store stops the program.
pub open spec fn seal_message() -> Seq<char> {
    "cannot seal the store file: it is empty or too large"@
}

/// The messages after the store was sealed.
pub open spec fn sealed_effects(sealed: Seq<u8>) -> Seq<EffectView> {
    seq![
        EffectView::SaveBytes(sealed),
        EffectView::Print("Passwords file encrypted successfully"@),
    ]
}

/// The effects of opening the sealed store.
pub open spec fn opened_effects(key: Seq<char>, content: Seq<u8>) -> Seq<EffectView> {
    match decryption(key, content) {
        Some(p) => seq![
            EffectView::SaveBytes(p),
            EffectView::Print("Passwords file decrypted successfully"@),
        ],
        None => cannot_open_effects(),
    }
}

/// The store bytes are there and no longer than what sealing adds, so they
/// cannot be a sealed store.
pub open spec fn short_content(raw: Option<Seq<u8>>) -> bool {
    match raw {
        Some(c) => c.len() <= SEAL_OVERHEAD,
        None => false,
    }
}

/// The messages when the store does not open under the key.
pub open spec fn cannot_open_effects() -> Seq<EffectView> {
    seq![
        EffectView::Print("Error: Couldn't decrypt file"@),
        EffectView::Print("File propably alredy decrypted, try the 'list' option to check"@),
    ]
}

/// The messages when `encrypt` finds a store file that is not UTF-8 text,
/// as a sealed store is.
pub open spec fn already_sealed_effects() -> Seq<EffectView> {
    seq![
        EffectView::PrintErr("Error: Passwords file is not UTF-8 text"@),
        EffectView::PrintErr("File propably already encrypted, try the 'decrypt' option"@),
    ]
}

/// What the clipboard report says.
pub open spec fn copy_report_effects(success: bool) -> Seq<EffectView> {
    if success {
        seq![EffectView::Print("Password copied successfully to clipboard!"@)]
    } else {
        seq![
            EffectView::PrintErr("Error: Couldn't copy password to clipboard"@),
            EffectView::PrintErr("Tip: Consier copying the password manually from the terminal"@),
        ]
    }
}

/// `create` once the password is drawn and the metadata made: refused for
/// a taken tag; stops when no metadata could be made (a date was asked for
/// and the clock gave none); otherwise the new entry is saved last in the store.
pub open spec fn create_with_spec(
    args: CreateArgs,
    s: StoreView,
    password: Seq<char>,
    metadata: Option<MetadataView>,
) -> StepView {
    if has_tag(s, args.tag@) {
        done(taken_tag_effects(args.tag@))
    } else {
        match metadata {
            None => done(seq![EffectView::Fail(clock_message())]),
            Some(m) => done(
                seq![EffectView::Save(created(s, args.tag@, EntryView { password, metadata: m }))],
            ),
        }
    }
}

/// What `create` may do: ask for the store; then, for a taken tag, refuse;
/// otherwise act as `create_with_spec` for some generated password and some
/// metadata that `Metadata::from` may give.
pub open spec fn create_ok(args: CreateArgs, p: ProgressView, r: StepView) -> bool {
    match p.store {
        None => r == need(NeedView::Store),
        Some(s) => if has_tag(s, args.tag@) {
            r == done(taken_tag_effects(args.tag@))
        } else {
            exists|pw: Seq<char>, m: Option<MetadataView>|
                is_generated_password(pw) && metadata_from_ok(args, m) && #[trigger] create_with_spec(
                    args,
                    s,
                    pw,
                    m,
                ) == r
        },
    }
}

/// `list`: the store's entries, shown as asked, or a note that it is empty.
pub open spec fn list_spec(args: ListArgs, p: ProgressView) -> StepView {
    match p.store {
        None => need(NeedView::Store),
        Some(s) => if s.len() == 0 {
            done(no_passwords_effects())
        } else {
            done(store_effects(s, args.with_date, args.with_text, args.with_url))
        },
    }
}

/// `get`: the entry with the first of the shortest tags that the pattern
/// matches, shown as asked; nothing if none matches.
pub open spec fn get_spec(args: GetArgs, p: ProgressView) -> StepView {
    match p.store {
        None => need(NeedView::Store),
        Some(s) => if s.len() == 0 {
            done(no_passwords_effects())
        } else if !regex_compiles(args.tag@) {
            done(seq![EffectView::Fail(pattern_message())])
        } else if !any_match(args.tag@, s) {
            done(Seq::empty())
        } else {
            let i = choose|i: int| is_best_match(args.tag@, s, i);
            done(entry_effects(s[i].0, s[i].1, args.with_date, args.with_text, args.with_url))
        },
    }
}

/// `delete`: refused for an empty tag (before the store is read) and for a
/// tag that no entry carries; otherwise the store without that entry is saved.
pub open spec fn delete_spec(args: DeleteArgs, p: ProgressView) -> StepView {
    if args.tag@.len() == 0 {
        done(missing_tag_effects())
    } else {
        match p.store {
            None => need(NeedView::Store),
            Some(s) => if !has_tag(s, args.tag@) {
                done(no_such_tag_effects(args.tag@))
            } else {
                done(seq![EffectView::Save(deleted(s, args.tag@))])
            },
        }
    }
}

/// `copy`: refused like `delete`; otherwise the password (or, with `_tag`,
/// the tag) goes to the clipboard.
pub open spec fn copy_spec(args: CopyArgs, p: ProgressView) -> StepView {
    if args.tag@.len() == 0 {
        done(missing_tag_effects())
    } else {
        match p.store {
            None => need(NeedView::Store),
            Some(s) => if !has_tag(s, args.tag@) {
                done(no_such_tag_effects(args.tag@))
            } else {
                done(
                    seq![
                        EffectView::Copy(
                            if args._tag {
                                args.tag@
                            } else {
                                s[tag_index(s, args.tag@)].1.password
                            },
                        ),
                    ],
                )
            },
        }
    }
}

/// The key: the one given, or else the one gathered.
pub open spec fn resolved_key(given: Option<Seq<char>>, p: ProgressView) -> Option<Seq<char>> {
    match given {
        Some(k) => Some(k),
        None => p.key,
    }
}

/// The step that fetches a key that was not given.
pub open spec fn key_need(key_file: Option<Seq<char>>, p: ProgressView) -> StepView {
    match key_file {
        Some(f) => need(NeedView::Key(KeySourceView::File(f))),
        None => match p.stdin_is_tty {
            None => need(NeedView::StdinKind),
            Some(tty) => need(NeedView::Key(key_source_spec(None, tty))),
        },
    }
}

/// What `encrypt` may do: fetch the key; print it and ask for the store's
/// bytes; refuse, writing nothing, bytes that are not UTF-8 text (a sealed
/// store is not); stop for an empty or oversized store; otherwise save the
/// bytes sealed under the key to the store file.
pub open spec fn encrypt_ok(args: EncryptArgs, p: ProgressView, r: StepView) -> bool {
    match resolved_key(opt_view(args.key), p) {
        None => r == key_need(opt_view(args.key_file), p),
        Some(k) => match p.raw {
            None => r == (StepView { effects: seq![EffectView::Print(k)], next: Some(NeedView::Raw) }),
            Some(c) => if !valid_utf8(c) {
                r == done(already_sealed_effects())
            } else if 0 < c.len() <= MAX_PLAINTEXT_LEN {
                exists|sealed: Seq<u8>|
                    sealed_under(k, c, sealed) && r == done(#[trigger] sealed_effects(sealed))
            } else {
                r == done(seq![EffectView::Fail(seal_message())])
            },
        },
    }
}

/// `decrypt`: fetch the key, then the store's bytes, then save them opened.
pub open spec fn decrypt_spec(args: DecryptArgs, p: ProgressView) -> StepView {
    match resolved_key(opt_view(args.key), p) {
        None => key_need(opt_view(args.key_file), p),
        Some(k) => match p.raw {
            None => need(NeedView::Raw),
            Some(c) => done(opened_effects(k, c)),
        },
    }
}

/// Whether `update` reads the new password from standard input: only for an
/// existing entry, without `with_password`, when standard input is no terminal.
pub open spec fn reads_piped(args: UpdateArgs, s: StoreView, p: ProgressView) -> bool {
    has_tag(s, args.tag@) && args.with_password is None && p.stdin_is_tty == Some(false)
}

/// `update` once the date is drawn: stops when a date is asked for an
/// existing entry and the clock gave none; otherwise the store, with the
/// entry patched, is saved (unchanged when no entry carries the tag).
pub open spec fn update_with_spec(
    args: UpdateArgs,
    s: StoreView,
    p: ProgressView,
    date: Option<Timestamp>,
) -> StepView {
    if has_tag(s, args.tag@) && args.with_date && date is None {
        done(seq![EffectView::Fail(clock_message())])
    } else {
        done(
            seq![
                EffectView::Save(
                    patched(
                        s,
                        args.tag@,
                        opt_view(args.text),
                        opt_view(args.url),
                        if args.with_date {
                            date
                        } else {
                            None
                        },
                        match args.with_password {
                            Some(pw) => Some(pw@),
                            None => if reads_piped(args, s, p) {
                                p.piped
                            } else {
                                None
                            },
                        },
                    ),
                ),
            ],
        )
    }
}

/// What `update` may do: ask for the store, then (for an existing entry
/// without a password given) whether standard input is a terminal, then its
/// contents where it is not; then act as `update_with_spec` for some date.
pub open spec fn update_ok(args: UpdateArgs, p: ProgressView, r: StepView) -> bool {
    match p.store {
        None => r == need(NeedView::Store),
        Some(s) => if has_tag(s, args.tag@) && args.with_password is None && p.stdin_is_tty is None {
            r == need(NeedView::StdinKind)
        } else if reads_piped(args, s, p) && p.piped is None {
            r == need(NeedView::Piped)
        } else {
            exists|date: Option<Timestamp>|
                (date matches Some(t) ==> t.nanos < 1_000_000_000) && #[trigger] update_with_spec(
                    args,
                    s,
                    p,
                    date,
                ) == r
        },
    }
}

/// The metadata that `create` records with the clock reading `clock`: dated
/// with that reading when a date is asked for (none when the clock gave none).
pub open spec fn clock_metadata(args: CreateArgs, clock: Option<Timestamp>) -> Option<MetadataView> {
    if args.with_date {
        match clock {
            Some(t) => Some(created_metadata(&args, t)),
            None => None,
        }
    } else {
        Some(created_metadata(&args, Timestamp { secs: 0, nanos: 0 }))
    }
}

/// `create`, once it has made an entry, dated it with the clock reading it
/// reports: the entry saved is the one `create_with_spec` makes from a
/// generated password and `clock_metadata` of that reading.
pub open spec fn create_clock_ok(args: CreateArgs, p: ProgressView, r: StepView, clock: Option<Timestamp>) -> bool {
    match p.store {
        Some(s) => !has_tag(s, args.tag@) ==> exists|pw: Seq<char>|
            is_generated_password(pw) && #[trigger] create_with_spec(
                args,
                s,
                pw,
                clock_metadata(args, clock),
            ) == r,
        None => true,
    }
}

/// `update`, once it has gathered its inputs, saves the entry dated with the
/// clock reading it reports: exactly `update_with_spec` of that reading.
pub open spec fn update_clock_ok(args: UpdateArgs, p: ProgressView, r: StepView, clock: Option<Timestamp>) -> bool {
    match p.store {
        Some(s) => (!(has_tag(s, args.tag@) && args.with_password is None && p.stdin_is_tty is None)
            && !(reads_piped(args, s, p) && p.piped is None)) ==> r == update_with_spec(args, s, p, clock),
        None => true,
    }
}

/// What `run` does with the clock for the command of `cli`.
pub open spec fn run_clock_ok(cli: Cli, p: ProgressView, r: StepView, clock: Option<Timestamp>) -> bool {
    match cli.command {
        Commands::Create(a) => create_clock_ok(a, p, r, clock),
        Commands::Update(a) => update_clock_ok(a, p, r, clock),
        _ => true,
    }
}

/// What `run` may do for the command of `cli`.
pub open spec fn run_ok(cli: Cli, p: ProgressView, r: StepView) -> bool {
    match cli.command {
        Commands::Create(a) => create_ok(a, p, r),
        Commands::List(a) => r == list_spec(a, p),
        Commands::Get(a) => r == get_spec(a, p),
        Commands::Delete(a) => r == delete_spec(a, p),
        Commands::Copy(a) => r == copy_spec(a, p),
        Commands::Encrypt(a) => encrypt_ok(a, p, r),
        Commands::Decrypt(a) => r == decrypt_spec(a, p),
        Commands::Update(a) => update_ok(a, p, r),
    }
}

/// The store file's path: `pwd_name` in the directory `pwd_path`, whose
/// leading `~/` stands for the home directory.
pub open spec fn store_path_spec(cli: Cli, home: Option<Seq<char>>) -> Seq<char> {
    joined(expanded(cli.pwd_path@, home), cli.pwd_name@)
}

/// A step with these effects that finishes the command.
fn finish(effects: Vec<Effect>) -> (r: Step)
    ensures
        r@ == done(effects_view(effects@)),
{
    Step { effects, next: None, clock: None }
}

/// A step that does nothing and finishes.
fn nothing() -> (r: Step)
    ensures
        r@ == done(Seq::empty()),
{
    let r = Step { effects: Vec::new(), next: None, clock: None };
    assert(effects_view(r.effects@) =~= Seq::<EffectView>::empty());
    r
}

/// A step that asks for `n`.
fn ask(n: Need) -> (r: Step)
    ensures
        r@ == need(n@),
{
    let r = Step { effects: Vec::new(), next: Some(n), clock: None };
    assert(effects_view(r.effects@) =~= Seq::<EffectView>::empty());
    r
}

/// Two lines on standard error.
fn two_errors(a: String, b: String) -> (r: Vec<Effect>)
    ensures
        effects_view(r@) == seq![EffectView::PrintErr(a@), EffectView::PrintErr(b@)],
{
    let mut v = Vec::new();
    v.push(Effect::PrintErr(a));
    v.push(Effect::PrintErr(b));
    assert(effects_view(v@) =~= seq![EffectView::PrintErr(a@), EffectView::PrintErr(b@)]);
    v
}

/// One effect.
fn one(e: Effect) -> (r: Vec<Effect>)
    ensures
        r@ == seq![e],
        effects_view(r@) == seq![e@],
{
    let mut v = Vec::new();
    v.push(e);
    assert(effects_view(v@) =~= seq![e@]);
    v
}

/// `prefix`, `middle` and `suffix` one after another.
fn enclose(prefix: &str, middle: &str, suffix: &str) -> (r: String)
    ensures
        r@ == prefix@ + middle@ + suffix@,
{
    let mut r = prefix.to_owned();
    r.append(middle);
    r.append(suffix);
    r
}

fn taken_tag(tag: &str) -> (r: Vec<Effect>)
    ensures
        effects_view(r@) == taken_tag_effects(tag@),
{
    two_errors(
        String::from_str("Error: Already existing tag!"),
        enclose("The provided tag '", tag, "' already exist, try another one!"),
    )
}

fn missing_tag() -> (r: Vec<Effect>)
    ensures
        effects_view(r@) == missing_tag_effects(),
{
    two_errors(
        String::from_str("Error: Missing tag!"),
        String::from_str("Expected a tag name after 'mmp delete' , but got None"),
    )
}

fn no_such_tag(tag: &str) -> (r: Vec<Effect>)
    ensures
        effects_view(r@) == no_such_tag_effects(tag@),
{
    two_errors(
        String::from_str("Error: Tag does not exist!"),
        enclose("Entry `", tag, "` does not exist"),
    )
}

fn already_sealed() -> (r: Vec<Effect>)
    ensures
        effects_view(r@) == already_sealed_effects(),
{
    two_errors(
        String::from_str("Error: Passwords file is not UTF-8 text"),
        String::from_str("File propably already encrypted, try the 'decrypt' option"),
    )
}

fn no_passwords() -> (r: Vec<Effect>)
    ensures
        effects_view(r@) == no_passwords_effects(),
{
    one(print("No passwords generated!"))
}

fn fail(message: &str) -> (r: Vec<Effect>)
    ensures
        effects_view(r@) == seq![EffectView::Fail(message@)],
{
    one(Effect::Fail(message.to_owned()))
}

/// The step that fetches a key that was not given.
fn fetch_key(key_file: &Option<String>, p: &Progress) -> (r: Step)
    ensures
        r@ == key_need(opt_view(*key_file), p@),
{
    match key_file {
        Some(_) => ask(Need::Key(key_source(key_file, false))),
        None => match p.stdin_is_tty {
            None => ask(Need::StdinKind),
            Some(tty) => ask(Need::Key(key_source(key_file, tty))),
        },
    }
}

/// The running program: its command line.
pub struct App {
    pub cli: Cli,
}

impl App {
    /// The program for a command line.
    pub fn new(cli: Cli) -> (r: Self)
        ensures
            r.cli == cli,
    {
        Self { cli }
    }

    /// `dir` joined with `name`.
    pub fn join_dir_name(dir: &str, name: &str) -> (r: String)
        ensures
            r@ == joined(dir@, name@),
    {
        crate::paths::join_path(dir, name)
    }

    /// `path` with a leading `~/` standing for the home directory `home`.
    pub fn expand_tilde(path: &str, home: &Option<String>) -> (r: String)
        ensures
            r@ == expanded(path@, opt_view(*home)),
    {
        crate::paths::expand_home(path, home)
    }

    /// The path of the store file.
    pub fn store_path(&self, home: &Option<String>) -> (r: String)
        ensures
            r@ == store_path_spec(self.cli, opt_view(*home)),
    {
        let dir = Self::expand_tilde(self.cli.pwd_path.as_str(), home);
        Self::join_dir_name(dir.as_str(), self.cli.pwd_name.as_str())
    }

    /// What to print after the clipboard helper ran.
    pub fn copy_report(success: bool) -> (r: Vec<Effect>)
        ensures
            effects_view(r@) == copy_report_effects(success),
    {
        if success {
            one(print("Password copied successfully to clipboard!"))
        } else {
            two_errors(
                String::from_str("Error: Couldn't copy password to clipboard"),
                String::from_str("Tip: Consier copying the password manually from the terminal"),
            )
        }
    }

    /// `create` with the password drawn and the metadata made.
    pub fn create_with(store: &Format, args: &CreateArgs, password: String, metadata: Option<Metadata>) -> (r:
        Step)
        ensures
            r@ == create_with_spec(
                *args,
                store@,
                password@,
                match metadata {
                    Some(m) => Some(m@),
                    None => None,
                },
            ),
    {
        if store.exist(&args.tag) {
            return finish(taken_tag(args.tag.as_str()));
        }
        match metadata {
            None => finish(fail("SystemTime must be later than UNIX_EPOCH")),
            Some(m) => {
                let mut s = store.duplicate();
                let r = s.create_with(args.tag.clone(), PasswordEntry::new(password, m));
                assert(r is Ok);
                finish(one(Effect::Save(s)))
            },
        }
    }

    /// Adds an entry with a fresh random password under a new tag.
    pub fn create(&self, p: &Progress) -> (r: Step)
        ensures
            match self.cli.command {
                Commands::Create(a) => create_ok(a, p@, r@) && create_clock_ok(a, p@, r@, step_clock(r)),
                _ => r@ == done(Seq::empty()),
            },
    {
        match &self.cli.command {
            Commands::Create(args) => match &p.store {
                None => ask(Need::Store),
                Some(store) => {
                    if store.exist(&args.tag) {
                        return finish(taken_tag(args.tag.as_str()));
                    }
                    let password = generate_password();
                    let reading = if args.with_date {
                        read_clock()
                    } else {
                        None
                    };
                    let metadata = if args.with_date {
                        match &reading {
                            Some(c) => Some(Metadata::dated(args, c.time())),
                            None => None,
                        }
                    } else {
                        Some(Metadata::dated(args, Timestamp { secs: 0, nanos: 0 }))
                    };
                    let ghost clock = match &reading {
                        Some(c) => Some(c@),
                        None => None,
                    };
                    let ghost mv = match &metadata {
                        Some(m) => Some(m@),
                        None => None,
                    };
                    assert(mv == clock_metadata(*args, clock));
                    let ghost pw = password@;
                    let mut r = Self::create_with(store, args, password, metadata);
                    assert(create_with_spec(*args, store@, pw, mv) == r@);
                    r.clock = reading;
                    assert(create_with_spec(*args, store@, pw, mv) == r@);
                    assert(metadata_from_ok(*args, mv)) by {
                        if args.with_date && clock is Some {
                            let t = clock.unwrap();
                            assert(mv == Some(created_metadata(args, t)));
                        }
                    }
                    r
                },
            },
            _ => nothing(),
        }
    }

    /// Shows every entry.
    pub fn list(&self, p: &Progress) -> (r: Step)
        ensures
            match self.cli.command {
                Commands::List(a) => r@ == list_spec(a, p@),
                _ => r@ == done(Seq::empty()),
            },
    {
        match &self.cli.command {
            Commands::List(args) => match &p.store {
                None => ask(Need::Store),
                Some(store) => {
                    if store.is_empty() {
                        return finish(no_passwords());
                    }
                    finish(show_store(store, args.with_date(), args.with_text(), args.with_url()))
                },
            },
            _ => nothing(),
        }
    }

    /// Shows the entry whose tag matches the pattern best.
    pub fn get(&self, p: &Progress) -> (r: Step)
        ensures
            match self.cli.command {
                Commands::Get(a) => r@ == get_spec(a, p@),
                _ => r@ == done(Seq::empty()),
            },
    {
        match &self.cli.command {
            Commands::Get(args) => match &p.store {
                None => ask(Need::Store),
                Some(store) => {
                    if store.is_empty() {
                        return finish(no_passwords());
                    }
                    let pattern = match Pattern::new(args.tag.as_str()) {
                        Ok(re) => re,
                        Err(_) => {
                            return finish(fail("invalid regular expression"));
                        },
                    };
                    match store.best_match(&pattern) {
                        None => nothing(),
                        Some(i) => {
                            proof {
                                let j = choose|j: int| is_best_match(args.tag@, store@, j);
                                lemma_best_match_unique(args.tag@, store@, i as int, j);
                            }
                            finish(
                                show_entry(
                                    store.tag_at(i).as_str(),
                                    store.entry_at(i),
                                    args.with_date(),
                                    args.with_text(),
                                    args.with_url(),
                                ),
                            )
                        },
                    }
                },
            },
            _ => nothing(),
        }
    }

    /// Removes the entry with the exact tag.
    pub fn delete(&self, p: &Progress) -> (r: Step)
        ensures
            match self.cli.command {
                Commands::Delete(a) => r@ == delete_spec(a, p@),
                _ => r@ == done(Seq::empty()),
            },
    {
        match &self.cli.command {
            Commands::Delete(args) => {
                if args.tag.as_str().is_empty() {
                    return finish(missing_tag());
                }
                match &p.store {
                    None => ask(Need::Store),
                    Some(store) => {
                        if !store.exist(&args.tag) {
                            return finish(no_such_tag(args.tag.as_str()));
                        }
                        let mut s = store.duplicate();
                        let _ = s.delete(args.tag.as_str());
                        finish(one(Effect::Save(s)))
                    },
                }
            },
            _ => nothing(),
        }
    }

    /// Hands the password (or the tag) of the entry with the exact tag to the
    /// clipboard.
    pub fn copy(&self, p: &Progress) -> (r: Step)
        ensures
            match self.cli.command {
                Commands::Copy(a) => r@ == copy_spec(a, p@),
                _ => r@ == done(Seq::empty()),
            },
    {
        match &self.cli.command {
            Commands::Copy(args) => {
                if args.tag.as_str().is_empty() {
                    return finish(missing_tag());
                }
                match &p.store {
                    None => ask(Need::Store),
                    Some(store) => match store.position(args.tag.as_str()) {
                        None => finish(no_such_tag(args.tag.as_str())),
                        Some(i) => {
                            let target = if args._tag {
                                args.tag.clone()
                            } else {
                                store.entry_at(i).password.clone()
                            };
                            finish(one(Effect::Copy(target)))
                        },
                    },
                }
            },
            _ => nothing(),
        }
    }

    /// Seals the store file under a key.
    pub fn encrypt(&self, p: &Progress) -> (r: Step)
        ensures
            match self.cli.command {
                Commands::Encrypt(a) => encrypt_ok(a, p@, r@),
                _ => r@ == done(Seq::empty()),
            },
    {
        match &self.cli.command {
            Commands::Encrypt(args) => {
                let key = match &args.key {
                    Some(k) => k,
                    None => match &p.key {
                        Some(k) => k,
                        None => {
                            return fetch_key(&args.key_file, p);
                        },
                    },
                };
                match &p.raw {
                    None => {
                        let r = Step { effects: one(Effect::Print(key.clone())), next: Some(Need::Raw), clock: None };
                        r
                    },
                    Some(content) => {
                        if !is_utf8_text(content.as_slice()) {
                            return finish(already_sealed());
                        }
                        let len = content.len();
                        if len == 0 || len as u64 > MAX_PLAINTEXT_LEN {
                            return finish(fail("cannot seal the store file: it is empty or too large"));
                        }
                        let sealed = encrypt_content(key.as_str(), content.as_slice());
                        let ghost sv = sealed@;
                        let mut effects = one(Effect::SaveBytes(sealed));
                        effects.push(print("Passwords file encrypted successfully"));
                        assert(effects_view(effects@) =~= sealed_effects(sv));
                        let r = finish(effects);
                        assert(r@ == done(sealed_effects(sv)));
                        r
                    },
                }
            },
            _ => nothing(),
        }
    }

    /// Opens the sealed store file with a key.
    pub fn decrypt(&self, p: &Progress) -> (r: Step)
        ensures
            match self.cli.command {
                Commands::Decrypt(a) => {
                    &&& r@ == decrypt_spec(a, p@)
                    &&& (resolved_key(opt_view(a.key), p@) is Some && short_content(p@.raw)) ==> r@ == done(
                        cannot_open_effects(),
                    )
                },
                _ => r@ == done(Seq::empty()),
            },
    {
        match &self.cli.command {
            Commands::Decrypt(args) => {
                let key = match &args.key {
                    Some(k) => k,
                    None => match &p.key {
                        Some(k) => k,
                        None => {
                            return fetch_key(&args.key_file, p);
                        },
                    },
                };
                match &p.raw {
                    None => ask(Need::Raw),
                    Some(content) => match decrypt_content(key.as_str(), content.as_slice()) {
                        Ok(plain) => {
                            let mut effects = one(Effect::SaveBytes(plain));
                            effects.push(print("Passwords file decrypted successfully"));
                            assert(effects_view(effects@) =~= opened_effects(key@, content@));
                            finish(effects)
                        },
                        Err(_) => {
                            let mut effects = one(print("Error: Couldn't decrypt file"));
                            effects.push(
                                print("File propably alredy decrypted, try the 'list' option to check"),
                            );
                            assert(effects_view(effects@) =~= opened_effects(key@, content@));
                            assert(effects_view(effects@) =~= cannot_open_effects());
                            finish(effects)
                        },
                    },
                }
            },
            _ => nothing(),
        }
    }

    /// `update` with the date already drawn.
    pub fn update_with(store: &Format, args: &UpdateArgs, p: &Progress, date: Option<Timestamp>) -> (r:
        Step)
        ensures
            r@ == update_with_spec(*args, store@, p@, date),
    {
        let exists = store.exist(&args.tag);
        if exists && args.with_date && date.is_none() {
            return finish(fail("SystemTime must be later than UNIX_EPOCH"));
        }
        let password = match &args.with_password {
            Some(pw) => Some(pw.clone()),
            None => {
                if exists && p.stdin_is_tty == Some(false) {
                    crate::store::clone_opt(&p.piped)
                } else {
                    None
                }
            },
        };
        let mut s = store.duplicate();
        let _ = s.update_entry(
            args.tag.as_str(),
            crate::store::clone_opt(&args.text),
            crate::store::clone_opt(&args.url),
            if args.with_date {
                date
            } else {
                None
            },
            password,
        );
        finish(one(Effect::Save(s)))
    }

    /// Changes the metadata and password of the entry with the exact tag.
    pub fn update(&self, p: &Progress) -> (r: Step)
        ensures
            match self.cli.command {
                Commands::Update(a) => update_ok(a, p@, r@) && update_clock_ok(a, p@, r@, step_clock(r)),
                _ => r@ == done(Seq::empty()),
            },
    {
        match &self.cli.command {
            Commands::Update(args) => match &p.store {
                None => ask(Need::Store),
                Some(store) => {
                    let exists = store.exist(&args.tag);
                    if exists && args.with_password.is_none() {
                        match p.stdin_is_tty {
                            None => {
                                return ask(Need::StdinKind);
                            },
                            Some(tty) => {
                                if !tty && p.piped.is_none() {
                                    return ask(Need::Piped);
                                }
                            },
                        }
                    }
                    let reading = if exists && args.with_date {
                        read_clock()
                    } else {
                        None
                    };
                    let date = match &reading {
                        Some(c) => Some(c.time()),
                        None => None,
                    };
                    let mut r = Self::update_with(store, args, p, date);
                    assert(update_with_spec(*args, store@, p@, date) == r@);
                    r.clock = reading;
                    assert(update_with_spec(*args, store@, p@, date) == r@);
                    r
                },
            },
            _ => nothing(),
        }
    }

    /// The next step of the command, given what has been gathered.
    pub fn run(&self, p: &Progress) -> (r: Step)
        ensures
            run_ok(self.cli, p@, r@),
            run_clock_ok(self.cli, p@, r@, step_clock(r)),
    {
        match &self.cli.command {
            Commands::Create(_) => self.create(p),
            Commands::List(_) => self.list(p),
            Commands::Get(_) => self.get(p),
            Commands::Delete(_) => self.delete(p),
            Commands::Copy(_) => self.copy(p),
            Commands::Encrypt(_) => self.encrypt(p),
            Commands::Decrypt(_) => self.decrypt(p),
            Commands::Update(_) => self.update(p),
        }
    }
}


/// `decrypt` of what `encrypt` sealed, under the same key, saves exactly the
/// bytes that were sealed: the store file is restored byte for byte.
pub proof fn lemma_decrypt_command_undoes_encrypt(
    ea: EncryptArgs,
    p: ProgressView,
    r: StepView,
    sealed: Seq<u8>,
    da: DecryptArgs,
    q: ProgressView,
)
    requires
        encrypt_ok(ea, p, r),
        r.effects == sealed_effects(sealed),
        resolved_key(opt_view(da.key), q) == resolved_key(opt_view(ea.key), p),
        q.raw == Some(sealed),
    ensures
        p.raw matches Some(c) && decrypt_spec(da, q) == done(
            seq![
                EffectView::SaveBytes(c),
                EffectView::Print("Passwords file decrypted successfully"@),
            ],
        ),
{
    assert(r.effects.len() == 2 && r.effects[0] == EffectView::SaveBytes(sealed));
    assert(resolved_key(opt_view(ea.key), p) is Some) by {
        if resolved_key(opt_view(ea.key), p) is None {
            assert(r.effects.len() == 0);
        }
    }
    let k = resolved_key(opt_view(ea.key), p).unwrap();
    assert(p.raw is Some) by {
        if p.raw is None {
            assert(r.effects[0] == EffectView::Print(k));
        }
    }
    let c = p.raw.unwrap();
    assert(valid_utf8(c) && 0 < c.len() <= MAX_PLAINTEXT_LEN) by {
        if !valid_utf8(c) {
            assert(r.effects[0] == already_sealed_effects()[0]);
        } else if !(0 < c.len() <= MAX_PLAINTEXT_LEN) {
            assert(r.effects[0] == EffectView::Fail(seal_message()));
        }
    }
    let s2 = choose|s2: Seq<u8>| sealed_under(k, c, s2) && r == done(#[trigger] sealed_effects(s2));
    assert(sealed_effects(s2)[0] == EffectView::SaveBytes(s2));
    assert(s2 == sealed);
    crate::crypto::lemma_decrypt_undoes_encrypt(k, c, sealed);
}

/// Encrypting any non-empty UTF-8 store within orion's limit seals it: the
/// bytes saved are the content's length plus 40, open to the content under the
/// key, and the only line printed is the success line.
pub proof fn lemma_encrypt_seals_text(ea: EncryptArgs, p: ProgressView, r: StepView, k: Seq<char>, c: Seq<u8>)
    requires
        encrypt_ok(ea, p, r),
        resolved_key(opt_view(ea.key), p) == Some(k),
        p.raw == Some(c),
        valid_utf8(c),
        0 < c.len() <= MAX_PLAINTEXT_LEN,
    ensures
        exists|sealed: Seq<u8>|
            sealed.len() == c.len() + crate::crypto::SEAL_OVERHEAD && crate::crypto::decryption(k, sealed)
                == Some(c) && r == done(#[trigger] sealed_effects(sealed)),
{
    let s2 = choose|s2: Seq<u8>| sealed_under(k, c, s2) && r == done(#[trigger] sealed_effects(s2));
    assert(sealed_under(k, c, s2));
}

/// A second `update` with the same arguments, without a date and with the
/// password given, saves the store that the first one saved.
pub proof fn lemma_update_command_idempotent(
    a: UpdateArgs,
    p: ProgressView,
    r: StepView,
    saved: StoreView,
    q: ProgressView,
    r2: StepView,
)
    requires
        !a.with_date,
        a.with_password is Some,
        p.store matches Some(s) && crate::store::tags_distinct(s),
        update_ok(a, p, r),
        r.effects == seq![EffectView::Save(saved)],
        q.store == Some(saved),
        update_ok(a, q, r2),
    ensures
        r2 == done(seq![EffectView::Save(saved)]),
{
    let s = p.store.unwrap();
    let text = opt_view(a.text);
    let url = opt_view(a.url);
    let pw = Some(a.with_password.unwrap()@);
    assert(r.effects[0] == EffectView::Save(saved));
    assert(!reads_piped(a, s, p));
    let d1 = choose|date: Option<Timestamp>|
        (date matches Some(t) ==> t.nanos < 1_000_000_000) && #[trigger] update_with_spec(a, s, p, date)
            == r;
    assert(update_with_spec(a, s, p, d1) == done(seq![EffectView::Save(patched(s, a.tag@, text, url, None, pw))]));
    assert(saved == patched(s, a.tag@, text, url, None, pw));
    crate::store::lemma_patch_idempotent(s, a.tag@, text, url, None, pw);
    crate::store::lemma_patch_keeps_tags(s, a.tag@, text, url, None, pw);
    assert(!reads_piped(a, saved, q));
    let d2 = choose|date: Option<Timestamp>|
        (date matches Some(t) ==> t.nanos < 1_000_000_000) && #[trigger] update_with_spec(a, saved, q, date)
            == r2;
    assert(update_with_spec(a, saved, q, d2) == done(
        seq![EffectView::Save(patched(saved, a.tag@, text, url, None, pw))],
    ));
}

/// `delete` of the tag that `create` just added saves the store as it was
/// before (for a non-empty tag: `delete` refuses an empty one).
pub proof fn lemma_delete_command_undoes_create(
    ca: CreateArgs,
    p: ProgressView,
    r: StepView,
    saved: StoreView,
    da: DeleteArgs,
    q: ProgressView,
)
    requires
        create_ok(ca, p, r),
        p.store matches Some(s) && crate::store::tags_distinct(s),
        r.effects == seq![EffectView::Save(saved)],
        ca.tag@.len() > 0,
        da.tag@ == ca.tag@,
        q.store == Some(saved),
    ensures
        delete_spec(da, q) == done(seq![EffectView::Save(p.store.unwrap())]),
{
    let s = p.store.unwrap();
    if has_tag(s, ca.tag@) {
        assert(r.effects == taken_tag_effects(ca.tag@));
        assert(r.effects[0] != EffectView::Save(saved));
    } else {
        let (pw, m) = choose|pw: Seq<char>, m: Option<MetadataView>|
            is_generated_password(pw) && metadata_from_ok(ca, m) && #[trigger] create_with_spec(
                ca,
                s,
                pw,
                m,
            ) == r;
        match m {
            None => {
                assert(r.effects[0] == EffectView::Fail(clock_message()));
            },
            Some(mm) => {
                let e = EntryView { password: pw, metadata: mm };
                assert(r.effects[0] == EffectView::Save(created(s, ca.tag@, e)));
                assert(saved == created(s, ca.tag@, e));
                crate::store::lemma_create_map(s, ca.tag@, e);
                crate::store::lemma_delete_undoes_create(s, ca.tag@, e);
            },
        }
    }
}

/// `copy` of the tag that `create` just added hands over the password that
/// was generated for it.
pub proof fn lemma_copy_reads_created_password(
    s: StoreView,
    tag: Seq<char>,
    e: EntryView,
    ca: CopyArgs,
    q: ProgressView,
)
    requires
        crate::store::tags_distinct(s),
        !has_tag(s, tag),
        tag.len() > 0,
        ca.tag@ == tag,
        !ca._tag,
        q.store == Some(created(s, tag, e)),
    ensures
        copy_spec(ca, q) == done(seq![EffectView::Copy(e.password)]),
{
    let c = created(s, tag, e);
    crate::store::lemma_create_map(s, tag, e);
    crate::store::lemma_create_keeps_tags_distinct(s, tag, e);
    let k = tag_index(c, tag);
    assert(c[s.len() as int].0 == tag);
    assert(c[k].0 == c[s.len() as int].0);
}

/// `copy` after `update` set a new password hands over that password.
pub proof fn lemma_copy_reads_updated_password(
    s: StoreView,
    tag: Seq<char>,
    text: Option<Seq<char>>,
    url: Option<Seq<char>>,
    date: Option<Timestamp>,
    password: Seq<char>,
    ca: CopyArgs,
    q: ProgressView,
)
    requires
        crate::store::tags_distinct(s),
        has_tag(s, tag),
        tag.len() > 0,
        ca.tag@ == tag,
        !ca._tag,
        q.store == Some(patched(s, tag, text, url, date, Some(password))),
    ensures
        copy_spec(ca, q) == done(seq![EffectView::Copy(password)]),
{
    let w = patched(s, tag, text, url, date, Some(password));
    crate::store::lemma_patch_keeps_tags(s, tag, text, url, date, Some(password));
    let i = tag_index(s, tag);
    assert(w[i].0 == tag);
    assert(has_tag(w, tag));
    let k = tag_index(w, tag);
    assert(w[k].0 == w[i].0);
}

/// `get` with a pattern that the regex crate matches against exactly one tag
/// shows that entry, wherever the match falls in the tag.
pub proof fn lemma_get_shows_sole_match(a: GetArgs, p: ProgressView, s: StoreView, i: int)
    requires
        p.store == Some(s),
        regex_compiles(a.tag@),
        0 <= i < s.len(),
        regex_is_match(a.tag@, s[i].0),
        forall|j: int| 0 <= j < s.len() && j != i ==> !regex_is_match(a.tag@, #[trigger] s[j].0),
    ensures
        get_spec(a, p) == done(entry_effects(s[i].0, s[i].1, a.with_date, a.with_text, a.with_url)),
{
    assert(matches_at(a.tag@, s, i));
    assert(is_best_match(a.tag@, s, i));
    let j = choose|j: int| is_best_match(a.tag@, s, j);
    lemma_best_match_unique(a.tag@, s, i, j);
}

/// `decrypt` under the key `k` opens exactly what orion opens under the key
/// made from the SHA-256 digest of `k`'s UTF-8 bytes: it saves that plaintext,
/// and where orion refuses, it says it could not decrypt.
pub proof fn lemma_decrypt_opens_under_key_digest(da: DecryptArgs, q: ProgressView, k: Seq<char>, c: Seq<u8>)
    requires
        resolved_key(opt_view(da.key), q) == Some(k),
        q.raw == Some(c),
    ensures
        aead_open_result(sha256(encode_utf8(k)), c) matches Some(plain) ==> decrypt_spec(da, q) == done(
            seq![
                EffectView::SaveBytes(plain),
                EffectView::Print("Passwords file decrypted successfully"@),
            ],
        ),
        aead_open_result(sha256(encode_utf8(k)), c) is None ==> decrypt_spec(da, q) == done(
            cannot_open_effects(),
        ),
{
}

/// What `encrypt` saves under the key `k` opens, under orion's key made from
/// the SHA-256 digest of `k`'s UTF-8 bytes, to exactly the store's bytes, and
/// is 40 bytes longer.
pub proof fn lemma_encrypt_opens_under_key_digest(
    ea: EncryptArgs,
    p: ProgressView,
    r: StepView,
    sealed: Seq<u8>,
    k: Seq<char>,
)
    requires
        encrypt_ok(ea, p, r),
        resolved_key(opt_view(ea.key), p) == Some(k),
        r.effects == sealed_effects(sealed),
    ensures
        p.raw matches Some(c) && aead_open_result(sha256(encode_utf8(k)), sealed) == Some(c)
            && sealed.len() == c.len() + SEAL_OVERHEAD,
{
    assert(r.effects.len() == 2 && r.effects[0] == EffectView::SaveBytes(sealed));
    assert(p.raw is Some) by {
        if p.raw is None {
            assert(r.effects[0] == EffectView::Print(k));
        }
    }
    let c = p.raw.unwrap();
    assert(valid_utf8(c) && 0 < c.len() <= MAX_PLAINTEXT_LEN) by {
        if !valid_utf8(c) {
            assert(r.effects[0] == already_sealed_effects()[0]);
        } else if !(0 < c.len() <= MAX_PLAINTEXT_LEN) {
            assert(r.effects[0] == EffectView::Fail(seal_message()));
        }
    }
    let s2 = choose|s2: Seq<u8>| sealed_under(k, c, s2) && r == done(#[trigger] sealed_effects(s2));
    assert(sealed_effects(s2)[0] == EffectView::SaveBytes(s2));
}

/// When `create` asks for a date and the clock gave the reading `t`, the new
/// entry, saved last in the store under the tag, carries the date `t`.
pub proof fn lemma_create_dates_with_reading(
    a: CreateArgs,
    p: ProgressView,
    r: StepView,
    t: Timestamp,
    saved: StoreView,
)
    requires
        create_clock_ok(a, p, r, Some(t)),
        p.store matches Some(s) && !has_tag(s, a.tag@),
        a.with_date,
        r.effects == seq![EffectView::Save(saved)],
    ensures
        saved.len() == p.store.unwrap().len() + 1,
        saved.last().0 == a.tag@,
        saved.last().1.metadata.date == Some(t),
{
    let s = p.store.unwrap();
    let pw = choose|pw: Seq<char>|
        is_generated_password(pw) && #[trigger] create_with_spec(a, s, pw, clock_metadata(a, Some(t))) == r;
    assert(r.effects[0] == EffectView::Save(saved));
}

/// When `update` asks for a date on an existing entry and the clock gave the
/// reading `t`, the entry saved under the tag carries the date `t`, and every
/// tag keeps its place.
pub proof fn lemma_update_dates_with_reading(
    a: UpdateArgs,
    p: ProgressView,
    r: StepView,
    t: Timestamp,
    saved: StoreView,
)
    requires
        update_clock_ok(a, p, r, Some(t)),
        p.store matches Some(s) && crate::store::tags_distinct(s) && has_tag(s, a.tag@),
        a.with_date,
        a.with_password is Some,
        r.effects == seq![EffectView::Save(saved)],
    ensures
        saved.len() == p.store.unwrap().len(),
        saved[tag_index(p.store.unwrap(), a.tag@)].0 == a.tag@,
        saved[tag_index(p.store.unwrap(), a.tag@)].1.metadata.date == Some(t),
{
    let s = p.store.unwrap();
    assert(!reads_piped(a, s, p));
    assert(r.effects[0] == EffectView::Save(saved));
    let pw = Some(a.with_password.unwrap()@);
    assert(saved == patched(s, a.tag@, opt_view(a.text), opt_view(a.url), Some(t), pw));
}

} // verus!
