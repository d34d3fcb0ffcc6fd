//! The supervisor's part in the life of the service: the places it keeps
//! files in, the events it is told of, what it does on each, and the watch
//! on the configuration file.

use crate::config::{Config, ConfigModel};
use crate::config_file::config_of_json;
use crate::fingerprint::{sha256, sha256_digest};
use crate::json::Json;
use crate::number::{lower_hex, lower_hex_text};
use crate::paths::{expand_user, expanded};
use crate::text::{str_eq, string_of, texts};
use vstd::prelude::*;

verus! {

pub const SOCKET_PATH: &'static str = "/tmp/rpaper-daemon";

pub const CONFIG_PATH: &'static str = "~/.config/rpaper/config.json";

pub const CONFIG_DIR: &'static str = "~/.config/rpaper";

pub const CACHE_DIR: &'static str = "~/.cache/rpaper";

pub const COLORS_DIR: &'static str = "~/.cache/rpaper/rwal";

pub const COLORS_PATH: &'static str = "~/.cache/rpaper/rwal/colors";

pub const WALLPAPERS_DIR: &'static str = "~/.cache/rpaper/wallpapers";

/// A request as it came, with the configuration as it was when it came.
pub struct RequestHandler {
    pub config: Config,
    pub message: String,
}

impl RequestHandler {
    pub fn new(config: Config, message: String) -> (h: Self)
        ensures
            h.config == config,
            h.message == message,
    {
        RequestHandler { config, message }
    }
}

/// What the supervisor is told.
pub enum MpscData {
    /// The configuration file has new content: the document it holds, if
    /// it holds one, and the templates of it that are missing.
    ConfigChanged(Option<Json>, Vec<String>),
    ErrorCreatingDirectory,
    SuccesCreatingDirectory,
    /// A request came over the socket.
    SocketRequest(String),
}

/// What the supervisor does on an event.
pub enum Reaction {
    /// It notes what happened.
    Info(String),
    /// It notes that something went wrong.
    Error(String),
    /// It hands the request, with the configuration of this moment, to the
    /// listener.
    Respond(RequestHandler),
}

/// The configuration after an event: what the document makes of the one
/// before after a change that holds a document, and else the one before.
pub open spec fn config_after(before: ConfigModel, event: MpscData, home: Seq<char>) -> ConfigModel {
    match event {
        MpscData::ConfigChanged(Some(doc), missing) => config_of_json(
            before,
            doc,
            home,
            texts(missing@),
        ),
        _ => before,
    }
}

/// What the supervisor does on an event, and the configuration after it.
/// A request gets the configuration as it is at this moment, whatever
/// becomes of the live one later.
pub fn react(config: &mut Config, event: MpscData, home: &str) -> (r: Reaction)
    ensures
        final(config)@ == config_after(old(config)@, event, home@),
        match event {
            MpscData::ConfigChanged(_, _) => r matches Reaction::Info(m) && m@ == "Config changed."@,
            MpscData::ErrorCreatingDirectory => r matches Reaction::Error(m) && m@
                == "Unable to create needed directory."@,
            MpscData::SuccesCreatingDirectory => r matches Reaction::Info(m) && m@
                == "Needed directory created."@,
            MpscData::SocketRequest(message) => r matches Reaction::Respond(h) && h.config@ == old(
                config,
            )@ && h.message == message,
        },
{
    match event {
        MpscData::ConfigChanged(doc, missing) => {
            match doc {
                Some(value) => {
                    config.read_from_json(&value, home, &missing);
                },
                None => {},
            }
            Reaction::Info(String::from_str("Config changed."))
        },
        MpscData::ErrorCreatingDirectory => Reaction::Error(
            String::from_str("Unable to create needed directory."),
        ),
        MpscData::SuccesCreatingDirectory => Reaction::Info(
            String::from_str("Needed directory created."),
        ),
        MpscData::SocketRequest(message) => Reaction::Respond(
            RequestHandler::new(config.clone(), message),
        ),
    }
}

/// Config update atomicity: a request leaves the configuration as it is, so
/// that the handler it gets holds the one configuration of its moment; and
/// a request that comes after a change of the configuration gets what the
/// changed document makes of the configuration.
pub proof fn lemma_request_sees_one_configuration(
    before: ConfigModel,
    doc: Json,
    missing: Vec<String>,
    home: Seq<char>,
    first: String,
    second: String,
)
    ensures
        config_after(before, MpscData::SocketRequest(first), home) == before,
        config_after(
            config_after(before, MpscData::ConfigChanged(Some(doc), missing), home),
            MpscData::SocketRequest(second),
            home,
        ) == config_of_json(before, doc, home, texts(missing@)),
{
}

/// The four directories that the service keeps: the cache, the cached
/// wallpapers, the cached palettes, and the configuration, each with the
/// home directory in place of `~/`.
pub fn needed_directories(home: &str) -> (r: Vec<String>)
    ensures
        texts(r@) == seq![
            expanded(CACHE_DIR@, home@),
            expanded(WALLPAPERS_DIR@, home@),
            expanded(COLORS_DIR@, home@),
            expanded(CONFIG_DIR@, home@),
        ],
{
    let mut r: Vec<String> = Vec::new();
    r.push(expand_user(CACHE_DIR, home));
    r.push(expand_user(WALLPAPERS_DIR, home));
    r.push(expand_user(COLORS_DIR, home));
    r.push(expand_user(CONFIG_DIR, home));
    proof {
        assert(texts(r@) =~= seq![
            expanded(CACHE_DIR@, home@),
            expanded(WALLPAPERS_DIR@, home@),
            expanded(COLORS_DIR@, home@),
            expanded(CONFIG_DIR@, home@),
        ]);
    }
    r
}

/// The event for a directory that was missing: whether it could be made.
pub fn directory_event(created: bool) -> (e: MpscData)
    ensures
        created ==> e is SuccesCreatingDirectory,
        !created ==> e is ErrorCreatingDirectory,
{
    if created {
        MpscData::SuccesCreatingDirectory
    } else {
        MpscData::ErrorCreatingDirectory
    }
}

/// The watch on the configuration file: the fingerprint of the content
/// that was seen last.
pub struct ConfigWatcher {
    pub hash: String,
}

/// The fingerprint of the content of a file.
pub open spec fn content_hash(content: Seq<u8>) -> Seq<char> {
    lower_hex(sha256(content))
}

impl ConfigWatcher {
    /// The watch, with the content of the file as it is at the start.
    pub fn new(content: &Vec<u8>) -> (w: Self)
        ensures
            w.hash@ == content_hash(content@),
    {
        ConfigWatcher { hash: hash_of(content) }
    }

    /// Takes the content of the file as it is now, and tells whether it is
    /// other than what was seen last.
    pub fn changed(&mut self, content: &Vec<u8>) -> (b: bool)
        ensures
            b == (content_hash(content@) != old(self).hash@),
            final(self).hash@ == content_hash(content@),
    {
        let hash = hash_of(content);
        if !str_eq(hash.as_str(), self.hash.as_str()) {
            self.hash = hash;
            true
        } else {
            false
        }
    }
}

/// The fingerprint of the content of a file.
fn hash_of(content: &Vec<u8>) -> (r: String)
    ensures
        r@ == content_hash(content@),
{
    let digest = sha256_digest(content.as_slice());
    string_of(&lower_hex_text(&digest))
}

/// The argument that follows the first occurrence of `arg`, the name of the
/// program not counted.
pub open spec fn argument_after(args: Seq<Seq<char>>, arg: Seq<char>, i: int) -> Option<Seq<char>>
    decreases args.len() - i,
{
    if i < 1 || i >= args.len() {
        None
    } else if args[i - 1] == arg {
        Some(args[i])
    } else {
        argument_after(args, arg, i + 1)
    }
}

/// The argument that follows the first occurrence of `arg`.
pub fn take_argument_after(arg: &str, args: &Vec<String>) -> (r: Option<String>)
    ensures
        crate::config::text_of(r) == argument_after(texts(args@), arg@, 1),
{
    let mut i: usize = 1;
    while i < args.len()
        invariant
            1 <= i,
            argument_after(texts(args@), arg@, 1) == argument_after(texts(args@), arg@, i as int),
        decreases args.len() - i,
    {
        proof {
            assert(texts(args@)[i - 1] == args@[i - 1]@);
            assert(texts(args@)[i as int] == args@[i as int]@);
        }
        if str_eq(args[i - 1].as_str(), arg) {
            return Some(args[i].clone());
        }
        i += 1;
    }
    None
}

} // verus!
