//! One command cycle, as the connection handler sees it: bytes in, text out.
//!
//! Nothing here touches a socket or a file. The caller reads and writes; the
//! functions of this module decide what is written and what becomes of the
//! store.

use crate::clock::{on_the_clock, Instant};
use crate::command::{reply_to, state_after};
use crate::database::{Database, DatabaseView};
use crate::dict::DictView;
use crate::error::{message_text, result_view, Error, ErrorView};
use crate::resp::decoder::{decode, request};
use crate::text;
use vstd::prelude::*;
use vstd::string::StringExecFns;
use vstd::utf8::{decode_utf8, valid_utf8};

verus! {

/// What the process was started with: where the snapshot file lies.
#[derive(Debug)]
pub struct Args {
    pub dir: Option<String>,
    pub dbfilename: Option<String>,
}

/// A configuration with one more setting, if the setting was given.
pub open spec fn with_setting(
    config: DictView<Seq<char>>,
    name: Seq<char>,
    setting: Option<String>,
) -> DictView<Seq<char>> {
    match setting {
        Some(value) => config.insert(name, value@),
        None => config,
    }
}

/// Seeds the configuration with the settings that were given: `dir` first,
/// then `dbfilename`.
pub fn handle_config(args: Args, db: &mut Database)
    ensures
        final(db)@.config == with_setting(
            with_setting(old(db)@.config, "dir"@, args.dir),
            "dbfilename"@,
            args.dbfilename,
        ),
        final(db)@.data == old(db)@.data,
{
    let Args { dir, dbfilename } = args;
    match dir {
        Some(dir) => {
            db.config.insert(String::from_str("dir"), dir);
        },
        None => {},
    }
    match dbfilename {
        Some(dbfilename) => {
            db.config.insert(String::from_str("dbfilename"), dbfilename);
        },
        None => {},
    }
}

/// The answer to the text of a request that is handled at the instant `now`.
pub open spec fn handled(req: Seq<char>, db: DatabaseView, now: Instant) -> Result<
    Seq<char>,
    ErrorView,
> {
    match request(req) {
        Err(e) => Err(e),
        Ok(cmd) => reply_to(cmd, db, now),
    }
}

/// The store after the text of a request was handled at the instant `now`.
pub open spec fn state_handled(req: Seq<char>, db: DatabaseView, now: Instant) -> DatabaseView {
    match request(req) {
        Err(_) => db,
        Ok(cmd) => state_after(cmd, db, now),
    }
}

/// Decodes a request and runs it against the store at the current time.
pub fn handle_command(req: String, db: &mut Database) -> (r: Result<String, Error>)
    ensures
        exists|now: Instant|
            {
                &&& on_the_clock(now)
                &&& result_view(r) == #[trigger] handled(req@, old(db)@, now)
                &&& final(db)@ == state_handled(req@, old(db)@, now)
            },
{
    match decode(&req) {
        Ok(cmd) => {
            let r = cmd.execute(db);
            proof {
                let now = choose|now: Instant|
                    {
                        &&& on_the_clock(now)
                        &&& result_view(r) == #[trigger] reply_to(cmd@, old(db)@, now)
                        &&& db@ == state_after(cmd@, old(db)@, now)
                    };
                assert(on_the_clock(now) && result_view(r) == handled(req@, old(db)@, now) && db@
                    == state_handled(req@, old(db)@, now));
            }
            r
        },
        Err(e) => {
            assert(on_the_clock(0i128) && result_view(Err::<String, Error>(e)) == handled(
                req@,
                old(db)@,
                0i128,
            ) && db@ == state_handled(req@, old(db)@, 0i128));
            Err(e)
        },
    }
}

/// What a read from the connection brought.
#[derive(Debug)]
pub enum ReadEvent {
    /// The bytes that were read.
    Data(Vec<u8>),
    /// The peer closed the connection.
    EndOfStream,
    /// The read failed.
    Failed,
}

/// What the connection handler does next.
#[derive(Debug)]
pub enum Action {
    /// Write this text back, then read again.
    Reply(String),
    /// Give the connection up.
    Close,
}

/// The text that answers the bytes of a request handled at the instant
/// `now`: the reply of the command, or the message of the error. Bytes that
/// are not UTF-8 are a malformed request.
pub open spec fn answer(input: Seq<u8>, db: DatabaseView, now: Instant) -> Seq<char> {
    if !valid_utf8(input) {
        message_text(ErrorView::ProtocolError)
    } else {
        match handled(decode_utf8(input), db, now) {
            Ok(reply) => reply,
            Err(e) => message_text(e),
        }
    }
}

/// The store after the bytes of a request were handled at the instant `now`.
pub open spec fn state_answered(input: Seq<u8>, db: DatabaseView, now: Instant) -> DatabaseView {
    if !valid_utf8(input) {
        db
    } else {
        state_handled(decode_utf8(input), db, now)
    }
}

/// One step of a connection: what to do after a read. Bytes are answered,
/// whatever they hold; the end of the stream or a failed read closes the
/// connection and leaves the store alone.
pub fn handle_connection(event: ReadEvent, db: &mut Database) -> (action: Action)
    ensures
        match event {
            ReadEvent::Data(input) => {
                &&& action matches Action::Reply(text)
                &&& exists|now: Instant|
                    {
                        &&& on_the_clock(now)
                        &&& text@ == #[trigger] answer(input@, old(db)@, now)
                        &&& final(db)@ == state_answered(input@, old(db)@, now)
                    }
            },
            _ => action is Close && final(db)@ == old(db)@,
        },
{
    match event {
        ReadEvent::Data(input) => {
            let ghost bytes = input@;
            let req = match text::from_utf8(input) {
                Some(req) => req,
                None => {
                    let text = Error::ProtocolError.message();
                    assert(on_the_clock(0i128) && text@ == answer(bytes, old(db)@, 0i128) && db@
                        == state_answered(bytes, old(db)@, 0i128));
                    return Action::Reply(text);
                },
            };
            let r = handle_command(req, db);
            let text = match r {
                Ok(reply) => reply,
                Err(e) => e.message(),
            };
            proof {
                let now = choose|now: Instant|
                    {
                        &&& on_the_clock(now)
                        &&& result_view(r) == #[trigger] handled(req@, old(db)@, now)
                        &&& db@ == state_handled(req@, old(db)@, now)
                    };
                assert(on_the_clock(now) && text@ == answer(bytes, old(db)@, now) && db@
                    == state_answered(bytes, old(db)@, now));
            }
            Action::Reply(text)
        },
        _ => Action::Close,
    }
}

} // verus!
