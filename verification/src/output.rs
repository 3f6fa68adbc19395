//! What a command hands back to be done: lines to print, files to write, text
//! to copy, and how entries are shown.

use vstd::prelude::*;
use crate::store::{EntryView, Format, PasswordEntry, StoreView, Timestamp};

verus! {

/// One thing for the program around the library to do, in order.
#[derive(Debug)]
pub enum Effect {
    /// Print the line on standard output.
    Print(String),
    /// Print the line on standard error.
    PrintErr(String),
    /// Write the store to the store file.
    Save(Format),
    /// Write the bytes to the store file.
    SaveBytes(Vec<u8>),
    /// Hand the text to the clipboard helper.
    Copy(String),
    /// Stop the program with this message; nothing after it is done.
    Fail(String),
}

/// The mathematical value of an `Effect`.
pub enum EffectView {
    Print(Seq<char>),
    PrintErr(Seq<char>),
    Save(StoreView),
    SaveBytes(Seq<u8>),
    Copy(Seq<char>),
    Fail(Seq<char>),
}

impl View for Effect {
    type V = EffectView;

    open spec fn view(&self) -> EffectView {
        match self {
            Effect::Print(s) => EffectView::Print(s@),
            Effect::PrintErr(s) => EffectView::PrintErr(s@),
            Effect::Save(f) => EffectView::Save(f@),
            Effect::SaveBytes(b) => EffectView::SaveBytes(b@),
            Effect::Copy(s) => EffectView::Copy(s@),
            Effect::Fail(s) => EffectView::Fail(s@),
        }
    }
}

/// The views of a list of effects.
pub open spec fn effects_view(v: Seq<Effect>) -> Seq<EffectView> {
    v.map_values(|e: Effect| e@)
}

/// The last second that RFC 2822 can show: the end of the year 9999.
pub const MAX_RFC2822_SECS: u64 = 253402300799;

/// A time that the RFC 2822 format can show.
pub open spec fn displayable(t: Timestamp) -> bool {
    t.secs <= MAX_RFC2822_SECS && t.nanos < 1_000_000_000
}

/// The RFC 2822 text that chrono gives for a UTC time, such as
/// `Tue, 1 Jul 2003 10:52:37 +0000`.
pub uninterp spec fn rfc2822_text(secs: u64, nanos: u32) -> Seq<char>;

/// Turns the time into a `chrono::DateTime<Utc>` through `SystemTime` and
/// calls its `to_rfc2822`. Claimed: the text is `rfc2822_text` of the time.
/// The required range is the one in which neither chrono call panics.
#[verifier::external_body]
fn format_rfc2822(secs: u64, nanos: u32) -> (r: String)
    requires
        secs <= MAX_RFC2822_SECS,
        nanos < 1_000_000_000,
    ensures
        r@ == rfc2822_text(secs, nanos),
{
    let t = std::time::UNIX_EPOCH + std::time::Duration::new(secs, nanos);
    let dt: chrono::DateTime<chrono::Utc> = t.into();
    dt.to_rfc2822()
}

/// The message with which showing an out-of-range date stops.
pub open spec fn undatable_message() -> Seq<char> {
    "date cannot be represented by RFC 2822"@
}

/// The lines that show one entry: its name and password, then the date, url
/// and text where present and asked for, then an empty line. A date that
/// RFC 2822 cannot show stops the program in its place.
pub open spec fn entry_effects(
    name: Seq<char>,
    e: EntryView,
    with_date: bool,
    with_text: bool,
    with_url: bool,
) -> Seq<EffectView> {
    seq![
        EffectView::Print("name: "@ + name),
        EffectView::Print("  password : "@ + e.password),
    ] + match e.metadata.date {
        Some(d) => if with_date {
            if displayable(d) {
                seq![EffectView::Print("  date : "@ + rfc2822_text(d.secs, d.nanos))]
            } else {
                seq![EffectView::Fail(undatable_message())]
            }
        } else {
            Seq::empty()
        },
        None => Seq::empty(),
    } + match e.metadata.url {
        Some(u) => if with_url {
            seq![EffectView::Print("  url : "@ + u)]
        } else {
            Seq::empty()
        },
        None => Seq::empty(),
    } + match e.metadata.text {
        Some(t) => if with_text {
            seq![EffectView::Print("  text: "@ + t)]
        } else {
            Seq::empty()
        },
        None => Seq::empty(),
    } + seq![EffectView::Print(Seq::empty())]
}

/// The lines that show every entry of the store, in order.
pub open spec fn store_effects(s: StoreView, with_date: bool, with_text: bool, with_url: bool) -> Seq<
    EffectView,
>
    decreases s.len(),
{
    if s.len() == 0 {
        Seq::empty()
    } else {
        store_effects(s.drop_last(), with_date, with_text, with_url) + entry_effects(
            s.last().0,
            s.last().1,
            with_date,
            with_text,
            with_url,
        )
    }
}

/// `prefix` followed by `rest`.
pub fn line(prefix: &str, rest: &str) -> (r: String)
    ensures
        r@ == prefix@ + rest@,
{
    let mut r = prefix.to_owned();
    r.append(rest);
    r
}

/// A line printed on standard output.
pub fn print(text: &str) -> (r: Effect)
    ensures
        r@ == EffectView::Print(text@),
{
    Effect::Print(text.to_owned())
}

/// The lines that show the entry `e` named `name`.
pub fn show_entry(name: &str, e: &PasswordEntry, with_date: bool, with_text: bool, with_url: bool) -> (r:
    Vec<Effect>)
    ensures
        effects_view(r@) == entry_effects(name@, e@, with_date, with_text, with_url),
{
    let mut out: Vec<Effect> = Vec::new();
    out.push(Effect::Print(line("name: ", name)));
    out.push(Effect::Print(line("  password : ", e.password.as_str())));
    let ghost head = effects_view(out@);
    match e.metadata.date {
        Some(d) => {
            if with_date {
                if d.secs <= MAX_RFC2822_SECS && d.nanos < 1_000_000_000 {
                    let text = format_rfc2822(d.secs, d.nanos);
                    out.push(Effect::Print(line("  date : ", text.as_str())));
                } else {
                    out.push(Effect::Fail(String::from_str("date cannot be represented by RFC 2822")));
                }
            }
        },
        None => {},
    }
    let ghost with_date_part = effects_view(out@);
    match &e.metadata.url {
        Some(u) => {
            if with_url {
                out.push(Effect::Print(line("  url : ", u.as_str())));
            }
        },
        None => {},
    }
    let ghost with_url_part = effects_view(out@);
    match &e.metadata.text {
        Some(t) => {
            if with_text {
                out.push(Effect::Print(line("  text: ", t.as_str())));
            }
        },
        None => {},
    }
    let ghost with_text_part = effects_view(out@);
    out.push(Effect::Print(String::new()));
    proof {
        let date_part = match e@.metadata.date {
            Some(d) => if with_date {
                if displayable(d) {
                    seq![EffectView::Print("  date : "@ + rfc2822_text(d.secs, d.nanos))]
                } else {
                    seq![EffectView::Fail(undatable_message())]
                }
            } else {
                Seq::<EffectView>::empty()
            },
            None => Seq::<EffectView>::empty(),
        };
        assert(with_date_part =~= head + date_part);
        assert(effects_view(out@) =~= with_text_part + seq![EffectView::Print(Seq::empty())]);
        assert(effects_view(out@) =~= entry_effects(name@, e@, with_date, with_text, with_url));
    }
    out
}

/// The lines that show every entry of `store`, in order.
pub fn show_store(store: &Format, with_date: bool, with_text: bool, with_url: bool) -> (r: Vec<Effect>)
    ensures
        effects_view(r@) == store_effects(store@, with_date, with_text, with_url),
{
    let mut out: Vec<Effect> = Vec::new();
    let n = store.len();
    let mut i: usize = 0;
    while i < n
        invariant
            n == store@.len(),
            i <= n,
            effects_view(out@) == store_effects(store@.take(i as int), with_date, with_text, with_url),
        decreases n - i,
    {
        let mut more = show_entry(
            store.tag_at(i).as_str(),
            store.entry_at(i),
            with_date,
            with_text,
            with_url,
        );
        let ghost before = effects_view(out@);
        let ghost added = effects_view(more@);
        out.append(&mut more);
        proof {
            let t = store@.take(i + 1);
            assert(t.drop_last() =~= store@.take(i as int));
            assert(t.last() == store@[i as int]);
            assert(effects_view(out@) =~= before + added);
        }
        i = i + 1;
    }
    assert(store@.take(n as int) =~= store@);
    out
}

} // verus!
