//! The bridge to an XMPP client: where its files are, which chat context a
//! correspondent belongs to, and the command that sends a message.

use crate::paths::ComponentPath;
use crate::definition::text_of;
use crate::text::{
    replace_char, replaced, same_text, slice_to_string, starts_with, texts, to_chars, to_string,
    trim, trim_bounds,
};
use vstd::prelude::*;
use vstd::string::*;

verus! {

/// The directory of the host's files, below the user's home directory.
pub fn chibi_dir(home: &ComponentPath) -> (r: ComponentPath)
    ensures
        r@ == home@.push(".chibi".spec_bytes()),
{
    home.child(".chibi")
}

/// The bridge's configuration file, below the user's home directory.
pub fn config_file(home: &ComponentPath) -> (r: ComponentPath)
    ensures
        r@ == home@.push(".chibi".spec_bytes()).push("hello_chibi.toml".spec_bytes()),
{
    chibi_dir(home).child("hello_chibi.toml")
}

/// The file that maps correspondents to contexts, below the user's home
/// directory.
pub fn mappings_file(home: &ComponentPath) -> (r: ComponentPath)
    ensures
        r@ == home@.push(".chibi".spec_bytes()).push("xmpp-mappings.json".spec_bytes()),
{
    chibi_dir(home).child("xmpp-mappings.json")
}

/// The client's FIFO where none is configured, below the user's home
/// directory.
pub fn default_fifo(home: &ComponentPath) -> (r: ComponentPath)
    ensures
        r@ == home@.push(".mcabber".spec_bytes()).push("mcabber.fifo".spec_bytes()),
{
    home.child(".mcabber").child("mcabber.fifo")
}

/// What is said when the configured program is not there.
pub open spec fn missing_program_message(path: Seq<char>) -> Seq<char> {
    "chibi binary not found at configured path: "@ + path
}

/// What is said when no program is configured; `config` is where the
/// configuration is looked for.
pub open spec fn unconfigured_message(config: Seq<char>) -> Seq<char> {
    "chibi_path not configured. Create "@ + config + " with: chibi_path = \"/path/to/chibi\""@
}

/// The host program to run: the configured path where one is configured and
/// `exists` says that it is there; otherwise the reason why there is none.
/// `config_file` is the configuration file's path as shown to the user.
pub fn chibi_path(configured: Option<String>, exists: bool, config_file: &str) -> (r: Result<
    String,
    String,
>)
    ensures
        match configured {
            Some(path) => if exists {
                r == Ok::<String, String>(path)
            } else {
                r matches Err(e) && e@ == missing_program_message(path@)
            },
            None => r matches Err(e) && e@ == unconfigured_message(config_file@),
        },
{
    match configured {
        Some(path) => {
            if exists {
                Ok(path)
            } else {
                let mut e = "chibi binary not found at configured path: ".to_owned();
                e.append(path.as_str());
                Err(e)
            }
        },
        None => {
            let mut e = "chibi_path not configured. Create ".to_owned();
            e.append(config_file);
            e.append(" with: chibi_path = \"/path/to/chibi\"");
            Err(e)
        },
    }
}

/// The context named for `jid` among `mappings`: that of the first pair
/// whose key is `jid`.
pub open spec fn mapped_context(mappings: Seq<(String, String)>, jid: Seq<char>) -> Option<
    Seq<char>,
>
    decreases mappings.len(),
{
    if mappings.len() == 0 {
        None
    } else if mappings[0].0@ == jid {
        Some(mappings[0].1@)
    } else {
        mapped_context(mappings.drop_first(), jid)
    }
}

/// A correspondent's address made fit for a context's name: every `@`
/// becomes `_at_`, then every `.` becomes `_`.
pub open spec fn sanitized(jid: Seq<char>) -> Seq<char> {
    replaced(replaced(jid, '@', seq!['_', 'a', 't', '_']), '.', seq!['_'])
}

/// The context that messages of `jid` belong to: the one that `mappings`
/// names for it, else its address made fit for a name.
pub open spec fn context_of(mappings: Seq<(String, String)>, jid: Seq<char>) -> Seq<char> {
    match mapped_context(mappings, jid) {
        Some(context) => context,
        None => sanitized(jid),
    }
}

/// The context that messages of `jid` belong to.
pub fn jid_to_context(jid: &str, mappings: &Vec<(String, String)>) -> (r: String)
    ensures
        r@ == context_of(mappings@, jid@),
{
    let key = jid.to_owned();
    let mut i: usize = 0;
    assert(mappings@.skip(0) == mappings@);
    while i < mappings.len()
        invariant
            i <= mappings.len(),
            key@ == jid@,
            mapped_context(mappings@, jid@) == mapped_context(mappings@.skip(i as int), jid@),
        decreases mappings.len() - i,
    {
        if mappings[i].0 == key {
            return mappings[i].1.clone();
        }
        assert(mappings@.skip(i as int).drop_first() == mappings@.skip(i + 1));
        i += 1;
    }
    let v = to_chars(jid);
    let at: Vec<char> = vec!['_', 'a', 't', '_'];
    let under: Vec<char> = vec!['_'];
    let w = replace_char(&v, '@', &at);
    let x = replace_char(&w, '.', &under);
    assert(at@ =~= seq!['_', 'a', 't', '_']);
    assert(under@ =~= seq!['_']);
    to_string(&x)
}

/// The mappings in force: those of the configuration where it has any, else
/// those of the mappings file, else none.
pub fn choose_mappings(
    configured: Option<Vec<(String, String)>>,
    from_file: Option<Vec<(String, String)>>,
) -> (r: Vec<(String, String)>)
    ensures
        r@ == (if configured is Some && configured.unwrap()@.len() > 0 {
            configured.unwrap()@
        } else if from_file is Some {
            from_file.unwrap()@
        } else {
            Seq::empty()
        }),
{
    match configured {
        Some(m) => {
            if m.len() > 0 {
                return m;
            }
        },
        None => {},
    }
    match from_file {
        Some(m) => m,
        None => Vec::new(),
    }
}

/// The command that makes the client say `message` to `jid`: all that
/// follows the address is the message, and the line ends the command.
pub fn say_command(jid: &str, message: &str) -> (r: String)
    ensures
        r@ == "/say_to "@ + jid@ + " "@ + message@ + "\n"@,
{
    let mut r = "/say_to ".to_owned();
    r.append(jid);
    r.append(" ");
    r.append(message);
    r.append("\n");
    r
}

/// The address behind the prefix `xmpp:` in a message's target; none where
/// the target has no such prefix.
pub open spec fn target_address(to: Seq<char>) -> Option<Seq<char>> {
    if "xmpp:"@.is_prefix_of(to) {
        Some(to.skip(5))
    } else {
        None
    }
}

/// The correspondent that a message's target names, where the message is
/// for this bridge.
pub fn xmpp_target(to: &str) -> (r: Option<String>)
    ensures
        text_of(r) == target_address(to@),
{
    let v = to_chars(to);
    let p = to_chars("xmpp:");
    proof {
        reveal_strlit("xmpp:");
    }
    if starts_with(&v, &p) {
        assert(v@.skip(5) == v@.subrange(5, v@.len() as int));
        Some(slice_to_string(&v, 5, v.len()))
    } else {
        None
    }
}

/// The name by which the host knows a correspondent.
pub fn xmpp_address(jid: &str) -> (r: String)
    ensures
        r@ == "xmpp:"@ + jid@,
        target_address(r@) == Some(jid@),
{
    let mut r = "xmpp:".to_owned();
    r.append(jid);
    proof {
        reveal_strlit("xmpp:");
        assert(r@.subrange(0, 5) =~= "xmpp:"@);
        assert(r@.skip(5) =~= jid@);
    }
    r
}

/// What the host is told to do about a message that came in from `jid`.
pub fn wake_prompt(jid: &str) -> (r: String)
    ensures
        r@ == "You have received an XMPP message from "@ + jid@
            + ". Check your inbox and reply using xmpp_send(to=\""@ + jid@
            + "\", message=\"your reply\")."@,
{
    let mut r = "You have received an XMPP message from ".to_owned();
    r.append(jid);
    r.append(". Check your inbox and reply using xmpp_send(to=\"");
    r.append(jid);
    r.append("\", message=\"your reply\").");
    r
}

/// What an event of the client asks of the bridge.
#[derive(Debug, Clone, PartialEq, Eq)]
pub enum Event {
    /// Too few arguments to be an event.
    Malformed,
    /// An event that needs no action: not a message, or not one that came
    /// in.
    Ignored,
    /// A message came in from `jid`; its text is in `message_file`, where
    /// the client wrote one.
    Incoming { jid: String, message_file: Option<String> },
}

/// What an `Event` holds, as character sequences.
pub enum EventView {
    Malformed,
    Ignored,
    Incoming { jid: Seq<char>, message_file: Option<Seq<char>> },
}

impl View for Event {
    type V = EventView;

    open spec fn view(&self) -> EventView {
        match self {
            Event::Malformed => EventView::Malformed,
            Event::Ignored => EventView::Ignored,
            Event::Incoming { jid, message_file } => EventView::Incoming {
                jid: jid@,
                message_file: text_of(*message_file),
            },
        }
    }
}

/// The event that the client's arguments describe; `args` begins with the
/// program's name, then come the kind of event, its direction, the
/// correspondent and, optionally, the file with the message. Only messages
/// that came in, from a person or a room, ask for action.
pub open spec fn event_of(args: Seq<Seq<char>>) -> EventView {
    if args.len() < 4 {
        EventView::Malformed
    } else if args[1] != "MSG"@ {
        EventView::Ignored
    } else if args[2] != "IN"@ && args[2] != "MUC"@ {
        EventView::Ignored
    } else {
        EventView::Incoming {
            jid: args[3],
            message_file: if args.len() > 4 {
                Some(args[4])
            } else {
                None
            },
        }
    }
}

/// The event that the client's arguments describe.
pub fn classify_event(args: &Vec<String>) -> (r: Event)
    ensures
        r@ == event_of(texts(args@)),
{
    if args.len() < 4 {
        return Event::Malformed;
    }
    if !same_text(args[1].as_str(), "MSG") {
        return Event::Ignored;
    }
    if !same_text(args[2].as_str(), "IN") && !same_text(args[2].as_str(), "MUC") {
        return Event::Ignored;
    }
    let message_file = if args.len() > 4 {
        Some(args[4].clone())
    } else {
        None
    };
    Event::Incoming { jid: args[3].clone(), message_file }
}

/// The message in what was read from the client's file: the text, trimmed;
/// none where nothing is left.
pub fn incoming_text(raw: &str) -> (r: Option<String>)
    ensures
        text_of(r) == (if trim(raw@).len() > 0 {
            Some(trim(raw@))
        } else {
            None
        }),
{
    let v = to_chars(raw);
    assert(v@.subrange(0, v@.len() as int) == v@);
    let (a, b) = trim_bounds(&v, 0, v.len());
    if a < b {
        Some(slice_to_string(&v, a, b))
    } else {
        None
    }
}

} // verus!
