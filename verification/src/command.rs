//! The command engine: what each verb answers and what it does to the store.
//!
//! Every command is stated twice. The spec functions give the reply and the
//! state of the store after the command, over the mathematical forms of the
//! command and the store. The executable functions are proved to do the same.
//! The instant at which a command runs is an argument: only
//! [`Command::execute`] reads the clock.

use crate::clock;
use crate::clock::{on_the_clock, Instant, NANOS_PER_MILLI, NANOS_PER_SECOND};
use crate::database::{
    kind_name, readable, stream_value, string_value, Database, DatabaseView, Value, ValueView,
};
use crate::dict::{Dict, DictView};
use crate::error::{result_view, Error, ErrorView};
use crate::resp::encoder::{
    array_of, array_string_encode, bulk_string, bulk_string_encode, null_bulk,
    null_bulk_string_encode, simple_string, simple_string_encode,
};
use crate::text;
use crate::text::{folded, join_spaced, parse_int, texts};
use vstd::prelude::*;
use vstd::string::StringExecFns;

verus! {

/// One request of a client: a verb and its arguments.
#[derive(Debug)]
pub struct Command {
    pub name: String,
    pub args: Vec<String>,
}

/// The mathematical form of a [`Command`].
pub struct CommandView {
    pub name: Seq<char>,
    pub args: Seq<Seq<char>>,
}

impl View for Command {
    type V = CommandView;

    open spec fn view(&self) -> CommandView {
        CommandView { name: self.name@, args: texts(self.args@) }
    }
}

/// The verbs of the engine.
#[derive(Debug)]
pub enum Verb {
    Ping,
    Echo,
    SetKey,
    GetKey,
    Config,
    Keys,
    Type,
    Xadd,
}

/// The verb that a word in lower case is.
pub open spec fn verb_named(word: Seq<char>) -> Option<Verb> {
    if word == "ping"@ {
        Some(Verb::Ping)
    } else if word == "echo"@ {
        Some(Verb::Echo)
    } else if word == "set"@ {
        Some(Verb::SetKey)
    } else if word == "get"@ {
        Some(Verb::GetKey)
    } else if word == "config"@ {
        Some(Verb::Config)
    } else if word == "keys"@ {
        Some(Verb::Keys)
    } else if word == "type"@ {
        Some(Verb::Type)
    } else if word == "xadd"@ {
        Some(Verb::Xadd)
    } else {
        None
    }
}

/// The verb that a name spells, whatever its case: the verb that its
/// lower-case form is.
pub open spec fn verb_of(name: Seq<char>) -> Option<Verb> {
    verb_named(folded(name))
}

/// The outcome of a command that was answered with `text`.
pub open spec fn answered(text: Seq<char>) -> Result<Seq<char>, ErrorView> {
    Ok(text)
}

/// The answer to `PING`.
pub open spec fn ping_reply() -> Seq<char> {
    simple_string("PONG"@)
}

/// The answer to `ECHO`: the arguments, joined by spaces.
pub open spec fn echo_reply(args: Seq<Seq<char>>) -> Seq<char> {
    bulk_string(join_spaced(args))
}

/// The length, in nanoseconds, of the unit that a word in lower case is:
/// `px` is the millisecond and `ex` the second. Any other word is no unit.
pub open spec fn unit_named(word: Seq<char>) -> Option<int> {
    if word == "px"@ {
        Some(NANOS_PER_MILLI as int)
    } else if word == "ex"@ {
        Some(NANOS_PER_SECOND as int)
    } else {
        None
    }
}

/// The length, in nanoseconds, of the unit that a word names, whatever its
/// case: the unit that its lower-case form is.
pub open spec fn unit_nanos(word: Seq<char>) -> Option<int> {
    unit_named(folded(word))
}

/// The deadline that the arguments of `SET` ask for at the instant `now`.
/// Without a third argument, or with one that names no unit, there is none.
/// With a unit, the fourth argument must be an integer count, and the
/// deadline, `now` plus that many units, must be an instant that fits.
pub open spec fn set_deadline(args: Seq<Seq<char>>, now: Instant) -> Result<
    Option<Instant>,
    ErrorView,
> {
    if args.len() <= 2 {
        Ok(None)
    } else {
        match unit_nanos(args[2]) {
            None => Ok(None),
            Some(scale) => {
                if args.len() < 4 {
                    Err(ErrorView::ProtocolError)
                } else {
                    match parse_int(args[3]) {
                        None => Err(ErrorView::ProtocolError),
                        Some(count) => {
                            let at = now + count * scale;
                            if i128::MIN <= at <= i128::MAX {
                                Ok(Some(at as Instant))
                            } else {
                                Err(ErrorView::ProtocolError)
                            }
                        },
                    }
                }
            },
        }
    }
}

/// The key and the entry that `SET` writes.
pub open spec fn set_entry(args: Seq<Seq<char>>, now: Instant) -> Result<
    (Seq<char>, ValueView),
    ErrorView,
> {
    if args.len() < 2 {
        Err(ErrorView::ProtocolError)
    } else {
        match set_deadline(args, now) {
            Err(e) => Err(e),
            Ok(expire_at) => Ok((args[0], string_value(args[1], expire_at))),
        }
    }
}

/// The fields that a run of arguments spells, two arguments to a field: a
/// name, then its value. A name that comes twice keeps its later value.
pub open spec fn fields_of(pairs: Seq<Seq<char>>) -> DictView<Seq<char>>
    decreases pairs.len(),
{
    if pairs.len() < 2 {
        DictView::empty()
    } else {
        fields_of(pairs.take(pairs.len() - 2)).insert(
            pairs[pairs.len() - 2],
            pairs[pairs.len() - 1],
        )
    }
}

/// The key and the entry that `XADD` writes: a key, an identifier, and
/// fields in pairs.
pub open spec fn xadd_entry(args: Seq<Seq<char>>) -> Result<(Seq<char>, ValueView), ErrorView> {
    if args.len() < 2 || args.len() % 2 != 0 {
        Err(ErrorView::ProtocolError)
    } else {
        Ok((args[0], stream_value(args[1], fields_of(args.skip(2)))))
    }
}

/// The answer to `SET`.
pub open spec fn set_reply(args: Seq<Seq<char>>, now: Instant) -> Result<Seq<char>, ErrorView> {
    match set_entry(args, now) {
        Err(e) => Err(e),
        Ok(_) => Ok(simple_string("OK"@)),
    }
}

/// The answer to `GET` at the instant `now`: the scalar of the entry, if
/// the key is present and readable.
pub open spec fn get_reply(args: Seq<Seq<char>>, db: DatabaseView, now: Instant) -> Result<
    Seq<char>,
    ErrorView,
> {
    if args.len() < 1 {
        Err(ErrorView::ProtocolError)
    } else {
        match db.data.get(args[0]) {
            None => Ok(null_bulk()),
            Some(value) => {
                if readable(value, now) {
                    Ok(bulk_string(value.scalar))
                } else {
                    Ok(null_bulk())
                }
            },
        }
    }
}

/// The answer to `CONFIG GET`: the name and its value. The name is the
/// second argument; the first one, the subcommand, is not looked at.
pub open spec fn config_reply(args: Seq<Seq<char>>, db: DatabaseView) -> Result<
    Seq<char>,
    ErrorView,
> {
    if args.len() < 2 {
        Err(ErrorView::ProtocolError)
    } else {
        match db.config.get(args[1]) {
            None => Ok(null_bulk()),
            Some(value) => Ok(array_of(seq![args[1], value])),
        }
    }
}

/// The answer to `KEYS`: every key, for the pattern `*`; no other pattern is
/// supported.
pub open spec fn keys_reply(args: Seq<Seq<char>>, db: DatabaseView) -> Result<
    Seq<char>,
    ErrorView,
> {
    if args.len() < 1 {
        Err(ErrorView::ProtocolError)
    } else if args[0] == "*"@ {
        Ok(array_of(db.data.order))
    } else {
        Ok(null_bulk())
    }
}

/// The answer to `TYPE`: the kind of the entry, or `none`. A deadline plays
/// no part.
pub open spec fn type_reply(args: Seq<Seq<char>>, db: DatabaseView) -> Result<
    Seq<char>,
    ErrorView,
> {
    if args.len() < 1 {
        Err(ErrorView::ProtocolError)
    } else {
        match db.data.get(args[0]) {
            None => Ok(simple_string("none"@)),
            Some(value) => Ok(simple_string(kind_name(value.kind))),
        }
    }
}

/// The answer to `XADD`: the identifier.
pub open spec fn xadd_reply(args: Seq<Seq<char>>) -> Result<Seq<char>, ErrorView> {
    match xadd_entry(args) {
        Err(e) => Err(e),
        Ok(_) => Ok(bulk_string(args[1])),
    }
}

/// The store after an entry was written, or after the write was refused.
pub open spec fn written(
    db: DatabaseView,
    entry: Result<(Seq<char>, ValueView), ErrorView>,
) -> DatabaseView {
    match entry {
        Err(_) => db,
        Ok((key, value)) => DatabaseView { data: db.data.insert(key, value), config: db.config },
    }
}

/// The answer to a command that runs at the instant `now`.
pub open spec fn reply_to(cmd: CommandView, db: DatabaseView, now: Instant) -> Result<
    Seq<char>,
    ErrorView,
> {
    match verb_of(cmd.name) {
        Some(Verb::Ping) => Ok(ping_reply()),
        Some(Verb::Echo) => Ok(echo_reply(cmd.args)),
        Some(Verb::SetKey) => set_reply(cmd.args, now),
        Some(Verb::GetKey) => get_reply(cmd.args, db, now),
        Some(Verb::Config) => config_reply(cmd.args, db),
        Some(Verb::Keys) => keys_reply(cmd.args, db),
        Some(Verb::Type) => type_reply(cmd.args, db),
        Some(Verb::Xadd) => xadd_reply(cmd.args),
        None => Err(ErrorView::UnknownCommand(cmd.name)),
    }
}

/// The store after a command that runs at the instant `now`. Only `SET` and
/// `XADD` change it.
pub open spec fn state_after(cmd: CommandView, db: DatabaseView, now: Instant) -> DatabaseView {
    match verb_of(cmd.name) {
        Some(Verb::SetKey) => written(db, set_entry(cmd.args, now)),
        Some(Verb::Xadd) => written(db, xadd_entry(cmd.args)),
        _ => db,
    }
}

/// The verb that a word in lower case is.
pub fn verb_from(word: &Vec<char>) -> (v: Option<Verb>)
    ensures
        v == verb_named(word@),
{
    if text::chars_are(word, "ping") {
        Some(Verb::Ping)
    } else if text::chars_are(word, "echo") {
        Some(Verb::Echo)
    } else if text::chars_are(word, "set") {
        Some(Verb::SetKey)
    } else if text::chars_are(word, "get") {
        Some(Verb::GetKey)
    } else if text::chars_are(word, "config") {
        Some(Verb::Config)
    } else if text::chars_are(word, "keys") {
        Some(Verb::Keys)
    } else if text::chars_are(word, "type") {
        Some(Verb::Type)
    } else if text::chars_are(word, "xadd") {
        Some(Verb::Xadd)
    } else {
        None
    }
}

/// The verb that a name spells, whatever its case.
pub fn verb(name: &String) -> (v: Option<Verb>)
    ensures
        v == verb_of(name@),
{
    let word = text::fold(name.as_str());
    verb_from(&word)
}

/// The length, in nanoseconds, of the unit that a word in lower case is.
pub fn unit_from(word: &Vec<char>) -> (scale: Option<i64>)
    ensures
        match scale {
            Some(n) => unit_named(word@) == Some(n as int),
            None => unit_named(word@) is None,
        },
{
    if text::chars_are(word, "px") {
        Some(1_000_000)
    } else if text::chars_are(word, "ex") {
        Some(1_000_000_000)
    } else {
        None
    }
}

/// The deadline that lies `count` units of `scale` nanoseconds after `now`,
/// if that instant fits.
pub fn deadline_after(now: Instant, count: i64, scale: i64) -> (at: Option<Instant>)
    ensures
        match at {
            Some(t) => t == now + count * scale,
            None => !(i128::MIN <= now + count * scale <= i128::MAX),
        },
{
    assert(-0x4000_0000_0000_0000_0000_0000_0000_0000 <= count * scale
        <= 0x4000_0000_0000_0000_0000_0000_0000_0000) by (nonlinear_arith)
        requires
            -0x8000_0000_0000_0000 <= count <= 0x8000_0000_0000_0000,
            -0x8000_0000_0000_0000 <= scale <= 0x8000_0000_0000_0000,
    ;
    let span: i128 = count as i128 * scale as i128;
    if span >= 0 {
        if now > i128::MAX - span {
            None
        } else {
            Some(now + span)
        }
    } else {
        if now < i128::MIN - span {
            None
        } else {
            Some(now + span)
        }
    }
}

impl Command {
    /// Runs the command against the store at the current time.
    pub fn execute(&self, db: &mut Database) -> (r: Result<String, Error>)
        ensures
            exists|now: Instant|
                {
                    &&& on_the_clock(now)
                    &&& result_view(r) == #[trigger] reply_to(self@, old(db)@, now)
                    &&& final(db)@ == state_after(self@, old(db)@, now)
                },
    {
        let now = clock::now();
        let r = self.execute_at(db, now);
        assert(on_the_clock(now) && result_view(r) == reply_to(self@, old(db)@, now) && db@
            == state_after(self@, old(db)@, now));
        r
    }

    /// Runs the command against the store at the instant `now`.
    pub fn execute_at(&self, db: &mut Database, now: Instant) -> (r: Result<String, Error>)
        ensures
            result_view(r) == reply_to(self@, old(db)@, now),
            final(db)@ == state_after(self@, old(db)@, now),
    {
        match verb(&self.name) {
            Some(Verb::Ping) => Ok(self.ping_command()),
            Some(Verb::Echo) => Ok(self.echo_command()),
            Some(Verb::SetKey) => self.set_command(db, now),
            Some(Verb::GetKey) => self.get_command(db, now),
            Some(Verb::Config) => self.config_command(db),
            Some(Verb::Keys) => self.keys_command(db),
            Some(Verb::Type) => self.type_command(db),
            Some(Verb::Xadd) => self.xadd_command(db),
            None => Err(Error::UnknownCommand(self.name.clone())),
        }
    }

    /// `PING`.
    pub fn ping_command(&self) -> (reply: String)
        ensures
            reply@ == ping_reply(),
    {
        simple_string_encode(&String::from_str("PONG"))
    }

    /// `ECHO [part ...]`.
    pub fn echo_command(&self) -> (reply: String)
        ensures
            reply@ == echo_reply(self@.args),
    {
        bulk_string_encode(&text::join(&self.args))
    }

    /// The deadline that the arguments of `SET` ask for.
    fn deadline(&self, now: Instant) -> (r: Result<Option<Instant>, Error>)
        ensures
            match r {
                Ok(expire_at) => set_deadline(self@.args, now) == Ok::<Option<Instant>, ErrorView>(
                    expire_at,
                ),
                Err(e) => set_deadline(self@.args, now) == Err::<Option<Instant>, ErrorView>(e@),
            },
    {
        if self.args.len() <= 2 {
            return Ok(None);
        }
        let unit = text::fold(self.args[2].as_str());
        let scale: i64 = match unit_from(&unit) {
            Some(scale) => scale,
            None => {
                return Ok(None);
            },
        };
        if self.args.len() < 4 {
            return Err(Error::ProtocolError);
        }
        let count = match text::parse_i64(self.args[3].as_str()) {
            Some(count) => count,
            None => {
                return Err(Error::ProtocolError);
            },
        };
        match deadline_after(now, count, scale) {
            Some(at) => Ok(Some(at)),
            None => Err(Error::ProtocolError),
        }
    }

    /// `SET key value [EX seconds | PX milliseconds]` at the instant `now`.
    pub fn set_command(&self, db: &mut Database, now: Instant) -> (r: Result<String, Error>)
        ensures
            result_view(r) == set_reply(self@.args, now),
            final(db)@ == written(old(db)@, set_entry(self@.args, now)),
    {
        if self.args.len() < 2 {
            return Err(Error::ProtocolError);
        }
        let expire_at = match self.deadline(now) {
            Ok(expire_at) => expire_at,
            Err(e) => {
                return Err(e);
            },
        };
        let key = self.args[0].clone();
        let value = self.args[1].clone();
        db.data.insert(key, Value::string(value, expire_at));
        Ok(simple_string_encode(&String::from_str("OK")))
    }

    /// `GET key` at the instant `now`.
    pub fn get_command(&self, db: &Database, now: Instant) -> (r: Result<String, Error>)
        ensures
            result_view(r) == get_reply(self@.args, db@, now),
    {
        if self.args.len() < 1 {
            return Err(Error::ProtocolError);
        }
        match db.data.get(&self.args[0]) {
            None => Ok(null_bulk_string_encode()),
            Some(value) => {
                if value.is_readable(now) {
                    Ok(bulk_string_encode(&value.scalar))
                } else {
                    Ok(null_bulk_string_encode())
                }
            },
        }
    }

    /// `CONFIG GET name`.
    pub fn config_command(&self, db: &Database) -> (r: Result<String, Error>)
        ensures
            result_view(r) == config_reply(self@.args, db@),
    {
        if self.args.len() < 2 {
            return Err(Error::ProtocolError);
        }
        let key = &self.args[1];
        match db.config.get(key) {
            None => Ok(null_bulk_string_encode()),
            Some(value) => {
                let items: Vec<&String> = vec![key, value];
                assert(texts(items@) =~= seq![key@, value@]);
                Ok(array_string_encode(items))
            },
        }
    }

    /// `KEYS pattern`.
    pub fn keys_command(&self, db: &Database) -> (r: Result<String, Error>)
        ensures
            result_view(r) == keys_reply(self@.args, db@),
            db@.data.wf(),
    {
        let keys = db.data.keys();
        if self.args.len() < 1 {
            return Err(Error::ProtocolError);
        }
        if self.args[0] == String::from_str("*") {
            assert(texts(keys@) =~= db@.data.order);
            Ok(array_string_encode(keys))
        } else {
            Ok(null_bulk_string_encode())
        }
    }

    /// `TYPE key`.
    pub fn type_command(&self, db: &Database) -> (r: Result<String, Error>)
        ensures
            result_view(r) == type_reply(self@.args, db@),
    {
        if self.args.len() < 1 {
            return Err(Error::ProtocolError);
        }
        match db.data.get(&self.args[0]) {
            None => Ok(simple_string_encode(&String::from_str("none"))),
            Some(value) => Ok(simple_string_encode(&value.kind_name())),
        }
    }

    /// `XADD key id [field value ...]`.
    pub fn xadd_command(&self, db: &mut Database) -> (r: Result<String, Error>)
        ensures
            result_view(r) == xadd_reply(self@.args),
            final(db)@ == written(old(db)@, xadd_entry(self@.args)),
    {
        let n = self.args.len();
        if n < 2 || n % 2 != 0 {
            return Err(Error::ProtocolError);
        }
        let ghost pairs = self@.args.skip(2);
        let mut entries: Dict<String> = Dict::new();
        let mut i: usize = 2;
        assert(pairs.take(0) =~= Seq::<Seq<char>>::empty());
        while i < n
            invariant
                2 <= i <= n,
                n == self.args@.len(),
                i % 2 == 0,
                n % 2 == 0,
                pairs == self@.args.skip(2),
                entries@ == fields_of(pairs.take(i - 2)),
            decreases n - i,
        {
            let field = self.args[i].clone();
            let value = self.args[i + 1].clone();
            entries.insert(field, value);
            proof {
                let next = pairs.take(i as int);
                assert(next.take(next.len() - 2) =~= pairs.take(i - 2));
                assert(next[next.len() - 2] == self.args@[i as int]@);
                assert(next[next.len() - 1] == self.args@[i + 1]@);
            }
            i += 2;
        }
        assert(pairs.take(n - 2) =~= pairs);
        let key = self.args[0].clone();
        let id = self.args[1].clone();
        let reply = bulk_string_encode(&id);
        db.data.insert(key, Value::stream(id, entries));
        Ok(reply)
    }
}

} // verus!
