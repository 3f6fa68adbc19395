use mmp::args::{
    Cli, Commands, CopyArgs, CreateArgs, DecryptArgs, DeleteArgs, EncryptArgs, GetArgs, KeySource,
    ListArgs, UpdateArgs,
};
use mmp::output::Effect;
use mmp::session::{App, Need, Progress, Step};
use mmp::store::{Format, Metadata, PasswordEntry, Timestamp};

fn app(command: Commands) -> App {
    App::new(Cli {
        command,
        pwd_path: "~/.local/share/mmp/".to_string(),
        pwd_name: "pwd.yaml".to_string(),
    })
}

fn store(entries: &[(&str, &str)]) -> Format {
    let mut f = Format::new();
    for (t, p) in entries {
        f.insert(
            t.to_string(),
            PasswordEntry::new(p.to_string(), Metadata { date: None, text: None, url: None }),
        );
    }
    f
}

fn with_store(f: Format) -> Progress {
    let mut p = Progress::new();
    p.store = Some(f);
    p
}

/// A text form of the effects, for comparison.
fn describe(step: &Step) -> Vec<String> {
    step.effects
        .iter()
        .map(|e| match e {
            Effect::Print(s) => format!("out {}", s),
            Effect::PrintErr(s) => format!("err {}", s),
            Effect::Save(f) => {
                let tags: Vec<String> = (0..f.len()).map(|i| f.tag_at(i).clone()).collect();
                format!("save {}", tags.join(","))
            }
            Effect::SaveBytes(b) => format!("bytes {}", b.len()),
            Effect::Copy(s) => format!("copy {}", s),
            Effect::Fail(s) => format!("fail {}", s),
        })
        .collect()
}

fn saved(step: &Step) -> &Format {
    match &step.effects[0] {
        Effect::Save(f) => f,
        _ => panic!("no save"),
    }
}

#[test]
fn create_asks_for_the_store_first() {
    let a = app(Commands::Create(CreateArgs {
        tag: "mail".to_string(),
        with_date: false,
        text: None,
        url: None,
    }));
    let step = a.run(&Progress::new());
    assert!(step.effects.is_empty());
    assert!(matches!(step.next, Some(Need::Store)));
}

#[test]
fn create_adds_entry_with_generated_password() {
    let a = app(Commands::Create(CreateArgs {
        tag: "mail".to_string(),
        with_date: true,
        text: Some("note".to_string()),
        url: Some("https://x".to_string()),
    }));
    let step = a.run(&with_store(store(&[("bank", "1")])));
    assert!(step.next.is_none());
    let f = saved(&step);
    assert_eq!(f.len(), 2);
    assert_eq!(f.tag_at(1), "mail");
    let e = f.entry_at(1);
    assert_eq!(e.password.chars().count(), 16);
    assert!(e.password.chars().all(|c| c.is_ascii_alphanumeric()));
    assert_eq!(e.metadata.text, Some("note".to_string()));
    assert_eq!(e.metadata.url, Some("https://x".to_string()));
    assert!(e.metadata.date.is_some());
}

#[test]
fn create_with_taken_tag_is_refused() {
    let a = app(Commands::Create(CreateArgs {
        tag: "bank".to_string(),
        with_date: false,
        text: None,
        url: None,
    }));
    let step = a.run(&with_store(store(&[("bank", "1")])));
    assert_eq!(
        describe(&step),
        vec![
            "err Error: Already existing tag!".to_string(),
            "err The provided tag 'bank' already exist, try another one!".to_string(),
        ]
    );
}

#[test]
fn create_with_uses_given_password_and_metadata() {
    let args = CreateArgs { tag: "t".to_string(), with_date: false, text: None, url: None };
    let m = Metadata { date: Some(Timestamp { secs: 1, nanos: 2 }), text: None, url: None };
    let step = App::create_with(&store(&[]), &args, "pw".to_string(), Some(m));
    let f = saved(&step);
    assert_eq!(f.entry_at(0).password, "pw");
    assert_eq!(f.entry_at(0).metadata.date, Some(Timestamp { secs: 1, nanos: 2 }));
    let step = App::create_with(&store(&[]), &args, "pw".to_string(), None);
    assert_eq!(describe(&step), vec!["fail SystemTime must be later than UNIX_EPOCH".to_string()]);
}

#[test]
fn list_of_empty_store() {
    let a = app(Commands::List(ListArgs::default()));
    let step = a.run(&with_store(Format::new()));
    assert_eq!(describe(&step), vec!["out No passwords generated!".to_string()]);
}

#[test]
fn list_shows_entries_as_asked() {
    let mut f = Format::new();
    f.insert(
        "a".to_string(),
        PasswordEntry::new(
            "pa".to_string(),
            Metadata {
                date: Some(Timestamp { secs: 0, nanos: 0 }),
                text: Some("ta".to_string()),
                url: Some("ua".to_string()),
            },
        ),
    );
    f.insert(
        "b".to_string(),
        PasswordEntry::new("pb".to_string(), Metadata { date: None, text: None, url: None }),
    );
    let a = app(Commands::List(ListArgs { with_date: true, with_text: true, with_url: true }));
    let step = a.run(&with_store(f.duplicate()));
    assert_eq!(
        describe(&step),
        vec![
            "out name: a",
            "out   password : pa",
            "out   date : Thu, 1 Jan 1970 00:00:00 +0000",
            "out   url : ua",
            "out   text: ta",
            "out ",
            "out name: b",
            "out   password : pb",
            "out ",
        ]
    );
    let a = app(Commands::List(ListArgs { with_date: false, with_text: true, with_url: false }));
    let step = a.run(&with_store(f));
    assert_eq!(
        describe(&step),
        vec!["out name: a", "out   password : pa", "out   text: ta", "out ", "out name: b", "out   password : pb", "out "]
    );
}

#[test]
fn list_stops_at_a_date_out_of_range() {
    let mut f = Format::new();
    f.insert(
        "a".to_string(),
        PasswordEntry::new(
            "pa".to_string(),
            Metadata { date: Some(Timestamp { secs: 253402300800, nanos: 0 }), text: None, url: None },
        ),
    );
    let a = app(Commands::List(ListArgs { with_date: true, with_text: false, with_url: false }));
    let step = a.run(&with_store(f));
    assert_eq!(
        describe(&step),
        vec![
            "out name: a",
            "out   password : pa",
            "fail date cannot be represented by RFC 2822",
            "out ",
        ]
    );
}

#[test]
fn get_shows_best_match() {
    let a = app(Commands::Get(GetArgs {
        tag: "ma".to_string(),
        with_date: false,
        with_text: false,
        with_url: false,
    }));
    let step = a.run(&with_store(store(&[("email", "1"), ("mail", "2"), ("bank", "3")])));
    assert_eq!(describe(&step), vec!["out name: mail", "out   password : 2", "out "]);
}

#[test]
fn get_without_match_prints_nothing() {
    let a = app(Commands::Get(GetArgs {
        tag: "zz".to_string(),
        with_date: false,
        with_text: false,
        with_url: false,
    }));
    let step = a.run(&with_store(store(&[("mail", "2")])));
    assert!(step.effects.is_empty());
    assert!(step.next.is_none());
}

#[test]
fn get_with_invalid_pattern_fails() {
    let a = app(Commands::Get(GetArgs {
        tag: "(".to_string(),
        with_date: false,
        with_text: false,
        with_url: false,
    }));
    let step = a.run(&with_store(store(&[("mail", "2")])));
    assert_eq!(describe(&step), vec!["fail invalid regular expression"]);
    let step = a.run(&with_store(Format::new()));
    assert_eq!(describe(&step), vec!["out No passwords generated!"]);
}

#[test]
fn delete_with_empty_tag_is_refused_before_reading() {
    let a = app(Commands::Delete(DeleteArgs { tag: String::new() }));
    let step = a.run(&Progress::new());
    assert_eq!(
        describe(&step),
        vec!["err Error: Missing tag!", "err Expected a tag name after 'mmp delete' , but got None"]
    );
    assert!(step.next.is_none());
}

#[test]
fn delete_removes_entry() {
    let a = app(Commands::Delete(DeleteArgs { tag: "a".to_string() }));
    let step = a.run(&Progress::new());
    assert!(matches!(step.next, Some(Need::Store)));
    let step = a.run(&with_store(store(&[("a", "1"), ("b", "2")])));
    assert_eq!(describe(&step), vec!["save b"]);
}

#[test]
fn delete_of_missing_tag_is_refused() {
    let a = app(Commands::Delete(DeleteArgs { tag: "c".to_string() }));
    let step = a.run(&with_store(store(&[("a", "1")])));
    assert_eq!(describe(&step), vec!["err Error: Tag does not exist!", "err Entry `c` does not exist"]);
}

#[test]
fn copy_hands_over_password_or_tag() {
    let a = app(Commands::Copy(CopyArgs { tag: "a".to_string(), _tag: false }));
    let step = a.run(&with_store(store(&[("a", "secret")])));
    assert_eq!(describe(&step), vec!["copy secret"]);
    let a = app(Commands::Copy(CopyArgs { tag: "a".to_string(), _tag: true }));
    let step = a.run(&with_store(store(&[("a", "secret")])));
    assert_eq!(describe(&step), vec!["copy a"]);
    let a = app(Commands::Copy(CopyArgs { tag: "b".to_string(), _tag: false }));
    let step = a.run(&with_store(store(&[("a", "secret")])));
    assert_eq!(describe(&step), vec!["err Error: Tag does not exist!", "err Entry `b` does not exist"]);
    let a = app(Commands::Copy(CopyArgs { tag: String::new(), _tag: false }));
    let step = a.run(&Progress::new());
    assert_eq!(step.effects.len(), 2);
}

#[test]
fn copy_report_messages() {
    let ok = App::copy_report(true);
    assert!(matches!(&ok[0], Effect::Print(s) if s == "Password copied successfully to clipboard!"));
    let bad = App::copy_report(false);
    assert_eq!(bad.len(), 2);
    assert!(matches!(&bad[0], Effect::PrintErr(s) if s == "Error: Couldn't copy password to clipboard"));
}

#[test]
fn encrypt_then_decrypt_through_the_steps() {
    let enc = app(Commands::Encrypt(EncryptArgs { key: Some("k1".to_string()), key_file: None }));
    let mut p = Progress::new();
    let step = enc.run(&p);
    assert_eq!(describe(&step), vec!["out k1"]);
    assert!(matches!(step.next, Some(Need::Raw)));
    p.raw = Some(b"passwords: {}\n".to_vec());
    let step = enc.run(&p);
    assert_eq!(describe(&step), vec!["bytes 54", "out Passwords file encrypted successfully"]);
    let sealed = match &step.effects[0] {
        Effect::SaveBytes(b) => b.clone(),
        _ => panic!(),
    };
    let dec = app(Commands::Decrypt(DecryptArgs { key: None, key_file: None }));
    let mut q = Progress::new();
    let step = dec.run(&q);
    assert!(matches!(step.next, Some(Need::StdinKind)));
    q.stdin_is_tty = Some(true);
    let step = dec.run(&q);
    assert!(matches!(step.next, Some(Need::Key(KeySource::Prompt))));
    q.key = Some("k1".to_string());
    let step = dec.run(&q);
    assert!(step.effects.is_empty());
    assert!(matches!(step.next, Some(Need::Raw)));
    q.raw = Some(sealed.clone());
    let step = dec.run(&q);
    assert_eq!(describe(&step), vec!["bytes 14", "out Passwords file decrypted successfully"]);
    assert!(matches!(&step.effects[0], Effect::SaveBytes(b) if b == b"passwords: {}\n"));
    q.key = Some("k2".to_string());
    let step = dec.run(&q);
    assert_eq!(
        describe(&step),
        vec![
            "out Error: Couldn't decrypt file",
            "out File propably alredy decrypted, try the 'list' option to check"
        ]
    );
}

#[test]
fn encrypt_of_empty_store_fails() {
    let enc = app(Commands::Encrypt(EncryptArgs { key: Some("k".to_string()), key_file: None }));
    let mut p = Progress::new();
    p.raw = Some(Vec::new());
    let step = enc.run(&p);
    assert_eq!(describe(&step), vec!["fail cannot seal the store file: it is empty or too large"]);
}

#[test]
fn encrypt_seals_any_text() {
    let enc = app(Commands::Encrypt(EncryptArgs { key: Some("k".to_string()), key_file: None }));
    let mut p = Progress::new();
    p.raw = Some(b"hello".to_vec());
    let step = enc.run(&p);
    assert_eq!(describe(&step), vec!["bytes 45", "out Passwords file encrypted successfully"]);
}

#[test]
fn encrypt_refuses_a_store_that_is_not_text() {
    let enc = app(Commands::Encrypt(EncryptArgs { key: Some("k".to_string()), key_file: None }));
    let mut p = Progress::new();
    p.raw = Some(mmp::crypto::encrypt_content("k", b"passwords: {}\n"));
    let step = enc.run(&p);
    assert_eq!(
        describe(&step),
        vec![
            "err Error: Passwords file is not UTF-8 text",
            "err File propably already encrypted, try the 'decrypt' option",
        ]
    );
    assert!(step.next.is_none());
}

#[test]
fn decrypt_writes_back_any_plaintext() {
    let sealed = mmp::crypto::encrypt_content("k", &[0xff, 0xfe]);
    let dec = app(Commands::Decrypt(DecryptArgs { key: Some("k".to_string()), key_file: None }));
    let mut q = Progress::new();
    q.raw = Some(sealed);
    let step = dec.run(&q);
    assert_eq!(describe(&step), vec!["bytes 2", "out Passwords file decrypted successfully"]);
    assert!(matches!(&step.effects[0], Effect::SaveBytes(b) if b == &vec![0xff, 0xfe]));
}

#[test]
fn decrypt_restores_non_ascii_store() {
    let content = "passwords:\n  caf\u{e9}:\n    password: x\n".as_bytes().to_vec();
    let enc = app(Commands::Encrypt(EncryptArgs { key: Some("k".to_string()), key_file: None }));
    let mut p = Progress::new();
    p.raw = Some(content.clone());
    let step = enc.run(&p);
    let sealed = match &step.effects[0] {
        Effect::SaveBytes(b) => b.clone(),
        _ => panic!(),
    };
    let dec = app(Commands::Decrypt(DecryptArgs { key: Some("k".to_string()), key_file: None }));
    let mut q = Progress::new();
    q.raw = Some(sealed);
    let step = dec.run(&q);
    match &step.effects[0] {
        Effect::SaveBytes(b) => assert_eq!(b, &content),
        _ => panic!(),
    }
}

#[test]
fn key_sources() {
    let enc = app(Commands::Encrypt(EncryptArgs { key: None, key_file: Some("/k".to_string()) }));
    let step = enc.run(&Progress::new());
    assert!(matches!(&step.next, Some(Need::Key(KeySource::File(f))) if f == "/k"));
    let enc = app(Commands::Encrypt(EncryptArgs { key: None, key_file: None }));
    let mut p = Progress::new();
    p.stdin_is_tty = Some(false);
    let step = enc.run(&p);
    assert!(matches!(step.next, Some(Need::Key(KeySource::Stdin))));
}

#[test]
fn update_with_given_password() {
    let a = app(Commands::Update(UpdateArgs {
        tag: "a".to_string(),
        with_date: false,
        text: Some("t".to_string()),
        url: None,
        with_password: Some("new".to_string()),
    }));
    let step = a.run(&with_store(store(&[("a", "old"), ("b", "x")])));
    let f = saved(&step);
    assert_eq!(f.entry_at(0).password, "new");
    assert_eq!(f.entry_at(0).metadata.text, Some("t".to_string()));
    assert_eq!(f.entry_at(1).password, "x");
}

#[test]
fn update_reads_piped_password() {
    let a = app(Commands::Update(UpdateArgs {
        tag: "a".to_string(),
        with_date: true,
        text: None,
        url: None,
        with_password: None,
    }));
    let mut p = with_store(store(&[("a", "old")]));
    let step = a.run(&p);
    assert!(matches!(step.next, Some(Need::StdinKind)));
    p.stdin_is_tty = Some(false);
    let step = a.run(&p);
    assert!(matches!(step.next, Some(Need::Piped)));
    p.piped = Some("piped\n".to_string());
    let step = a.run(&p);
    let f = saved(&step);
    assert_eq!(f.entry_at(0).password, "piped\n");
    assert!(f.entry_at(0).metadata.date.is_some());
}

#[test]
fn update_on_terminal_keeps_password() {
    let a = app(Commands::Update(UpdateArgs {
        tag: "a".to_string(),
        with_date: false,
        text: None,
        url: Some("u".to_string()),
        with_password: None,
    }));
    let mut p = with_store(store(&[("a", "old")]));
    p.stdin_is_tty = Some(true);
    let step = a.run(&p);
    let f = saved(&step);
    assert_eq!(f.entry_at(0).password, "old");
    assert_eq!(f.entry_at(0).metadata.url, Some("u".to_string()));
}

#[test]
fn update_of_missing_tag_saves_store_unchanged() {
    let a = app(Commands::Update(UpdateArgs {
        tag: "zz".to_string(),
        with_date: true,
        text: Some("t".to_string()),
        url: None,
        with_password: None,
    }));
    let step = a.run(&with_store(store(&[("a", "old")])));
    let f = saved(&step);
    assert_eq!(f.entry_at(0).password, "old");
    assert_eq!(f.entry_at(0).metadata.text, None);
}

#[test]
fn update_with_keeps_date_when_not_asked() {
    let args = UpdateArgs {
        tag: "a".to_string(),
        with_date: false,
        text: None,
        url: None,
        with_password: None,
    };
    let mut p = with_store(store(&[("a", "old")]));
    p.stdin_is_tty = Some(true);
    let s = store(&[("a", "old")]);
    let step = App::update_with(&s, &args, &p, Some(Timestamp { secs: 9, nanos: 0 }));
    assert_eq!(saved(&step).entry_at(0).metadata.date, None);
    let args = UpdateArgs { with_date: true, ..args };
    let step = App::update_with(&s, &args, &p, None);
    assert_eq!(describe(&step), vec!["fail SystemTime must be later than UNIX_EPOCH"]);
}

#[test]
fn delete_after_create_restores_store() {
    let create = app(Commands::Create(CreateArgs {
        tag: "new".to_string(),
        with_date: false,
        text: None,
        url: None,
    }));
    let step = create.run(&with_store(store(&[("a", "1"), ("b", "2")])));
    let after_create = saved(&step).duplicate();
    assert_eq!(describe(&step), vec!["save a,b,new"]);
    let delete = app(Commands::Delete(DeleteArgs { tag: "new".to_string() }));
    let step = delete.run(&with_store(after_create));
    assert_eq!(describe(&step), vec!["save a,b"]);
    assert_eq!(saved(&step).entry_at(1).password, "2");
}

#[test]
fn copy_after_create_gives_generated_password() {
    let create = app(Commands::Create(CreateArgs {
        tag: "new".to_string(),
        with_date: false,
        text: None,
        url: None,
    }));
    let step = create.run(&with_store(store(&[])));
    let f = saved(&step).duplicate();
    let password = f.entry_at(0).password.clone();
    let copy = app(Commands::Copy(CopyArgs { tag: "new".to_string(), _tag: false }));
    let step = copy.run(&with_store(f));
    assert_eq!(describe(&step), vec![format!("copy {}", password)]);
}
