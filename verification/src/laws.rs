//! What holds of the engine and of the snapshot format as a whole, proved
//! from the definitions that the contracts of the library use.

use crate::buffer::be_value;
use crate::clock::{on_the_clock, Instant, NANOS_PER_MILLI};
use crate::command::{
    answered, config_reply, get_reply, keys_reply, reply_to, set_deadline, set_entry,
    set_reply, state_after, type_reply, unit_nanos, verb_named, verb_of, written, xadd_entry,
    CommandView, Verb,
};
use crate::database::{DatabaseView, ValueView};
use crate::dict::DictView;
use crate::error::ErrorView;
use crate::parser::length_at;
use crate::resp::decoder::{crlf_at, first_crlf, lemma_first_crlf, lines};
use crate::resp::encoder::{array_of, bulk_string, crlf, null_bulk, simple_string};
use crate::server::with_setting;
use crate::text::{ascii_lower, digits_value, folded, parse_int};
use vstd::prelude::*;

verus! {

/// A key that the store does not hold reads as nothing: `GET` answers the
/// null bulk string and `TYPE` answers `none`, at any time.
pub proof fn law_absent_key(db: DatabaseView, args: Seq<Seq<char>>, now: Instant)
    requires
        args.len() >= 1,
        !db.data.map.contains_key(args[0]),
    ensures
        get_reply(args, db, now) == answered(null_bulk()),
        type_reply(args, db) == answered(simple_string("none"@)),
{
}

/// After `SET key value`, whenever it ran, `GET key` answers the value and
/// `TYPE key` answers `string`, at any time.
pub proof fn law_set_then_get(
    db: DatabaseView,
    key: Seq<char>,
    value: Seq<char>,
    now_set: Instant,
    now_get: Instant,
)
    ensures
        set_reply(seq![key, value], now_set) == answered(simple_string("OK"@)),
        get_reply(seq![key], written(db, set_entry(seq![key, value], now_set)), now_get)
            == answered(bulk_string(value)),
        type_reply(seq![key], written(db, set_entry(seq![key, value], now_set))) == answered(
            simple_string("string"@),
        ),
{
}

/// What `GET` and `TYPE` answer for a key does not change when another key
/// is written.
pub proof fn law_other_key_untouched(
    db: DatabaseView,
    key: Seq<char>,
    other: Seq<char>,
    value: ValueView,
    now: Instant,
)
    requires
        other != key,
    ensures
        get_reply(seq![key], written(db, Ok((other, value))), now) == get_reply(
            seq![key],
            db,
            now,
        ),
        type_reply(seq![key], written(db, Ok((other, value)))) == type_reply(seq![key], db),
{
}

/// Only `SET` and `XADD` change the store, and no command changes the
/// configuration.
pub proof fn law_reads_leave_store(cmd: CommandView, db: DatabaseView, now: Instant)
    ensures
        !(verb_of(cmd.name) matches Some(Verb::SetKey)) && !(verb_of(cmd.name) matches Some(
            Verb::Xadd,
        )) ==> state_after(cmd, db, now) == db,
        state_after(cmd, db, now).config == db.config,
{
}

/// A store whose keys are listed once each stays so under every command.
pub proof fn law_store_stays_well_formed(cmd: CommandView, db: DatabaseView, now: Instant)
    requires
        db.data.wf(),
    ensures
        state_after(cmd, db, now).data.wf(),
{
    let entry = match verb_of(cmd.name) {
        Some(Verb::SetKey) => set_entry(cmd.args, now),
        Some(Verb::Xadd) => xadd_entry(cmd.args),
        _ => Err(ErrorView::ProtocolError),
    };
    match entry {
        Ok((key, value)) => {
            db.data.lemma_insert_wf(key, value);
        },
        Err(_) => {},
    }
}

/// At every instant that the clock can show, `SET` with a key and a value
/// answers `OK` unless it names a unit and then lacks an integer count: no
/// count is too large.
pub proof fn law_set_fits_the_clock(args: Seq<Seq<char>>, now: Instant)
    requires
        on_the_clock(now),
        args.len() >= 2,
        args.len() >= 3 && unit_nanos(args[2]) is Some ==> args.len() >= 4 && parse_int(
            args[3],
        ) is Some,
    ensures
        set_reply(args, now) == answered(simple_string("OK"@)),
{
    if args.len() >= 3 && unit_nanos(args[2]) is Some {
        let scale = unit_nanos(args[2])->0;
        let count = parse_int(args[3])->0;
        assert(-0x8000_0000_0000_0000 * 1_000_000_000 <= count * scale <= 0x8000_0000_0000_0000
            * 1_000_000_000) by (nonlinear_arith)
            requires
                -0x8000_0000_0000_0000 <= count <= 0x8000_0000_0000_0000,
                0 <= scale <= 1_000_000_000,
        ;
    }
}

/// After `SET key value unit count`, where the unit is milliseconds and the
/// count is zero, the deadline is the instant of the `SET`. From that
/// instant on `GET key` answers the null bulk string, while `TYPE key` still
/// answers `string`: a deadline hides the value, not the kind.
pub proof fn law_deadline_now_masks(
    db: DatabaseView,
    key: Seq<char>,
    value: Seq<char>,
    unit: Seq<char>,
    count: Seq<char>,
    now_set: Instant,
    now_get: Instant,
)
    requires
        unit_nanos(unit) == Some(NANOS_PER_MILLI as int),
        parse_int(count) == Some(0i64),
        now_set <= now_get,
    ensures
        set_reply(seq![key, value, unit, count], now_set) == answered(
            simple_string("OK"@),
        ),
        get_reply(
            seq![key],
            written(db, set_entry(seq![key, value, unit, count], now_set)),
            now_get,
        ) == answered(null_bulk()),
        type_reply(seq![key], written(db, set_entry(seq![key, value, unit, count], now_set)))
            == answered(simple_string("string"@)),
{
    let args = seq![key, value, unit, count];
    assert(args.len() == 4 && args[2] == unit && args[3] == count);
    assert(0i64 * (NANOS_PER_MILLI as int) == 0) by (nonlinear_arith);
    assert(set_deadline(args, now_set) == Ok::<Option<Instant>, ErrorView>(Some(now_set)));
}

/// `PX`, in either case, names the millisecond, and `0` is the numeral of
/// zero.
pub proof fn law_px_zero()
    ensures
        unit_nanos("PX"@) == Some(NANOS_PER_MILLI as int),
        unit_nanos("px"@) == Some(NANOS_PER_MILLI as int),
        parse_int("0"@) == Some(0i64),
{
    reveal_strlit("PX");
    reveal_strlit("px");
    reveal_strlit("0");
    assert(ascii_lower("PX"@) =~= "px"@);
    assert(ascii_lower("px"@) =~= "px"@);
    assert("0"@.drop_last() =~= Seq::<char>::empty());
    reveal_with_fuel(digits_value, 2);
}

/// Each verb is known by its name in capitals and in small letters.
pub proof fn law_verbs_in_either_case()
    ensures
        verb_of("PING"@) == Some(Verb::Ping) && verb_of("ping"@) == Some(Verb::Ping),
        verb_of("ECHO"@) == Some(Verb::Echo) && verb_of("echo"@) == Some(Verb::Echo),
        verb_of("SET"@) == Some(Verb::SetKey) && verb_of("set"@) == Some(Verb::SetKey),
        verb_of("GET"@) == Some(Verb::GetKey) && verb_of("get"@) == Some(Verb::GetKey),
        verb_of("CONFIG"@) == Some(Verb::Config) && verb_of("config"@) == Some(Verb::Config),
        verb_of("KEYS"@) == Some(Verb::Keys) && verb_of("keys"@) == Some(Verb::Keys),
        verb_of("TYPE"@) == Some(Verb::Type) && verb_of("type"@) == Some(Verb::Type),
        verb_of("XADD"@) == Some(Verb::Xadd) && verb_of("xadd"@) == Some(Verb::Xadd),
{
    reveal_strlit("PING");
    reveal_strlit("ping");
    reveal_strlit("ECHO");
    reveal_strlit("echo");
    reveal_strlit("SET");
    reveal_strlit("set");
    reveal_strlit("GET");
    reveal_strlit("get");
    reveal_strlit("CONFIG");
    reveal_strlit("config");
    reveal_strlit("KEYS");
    reveal_strlit("keys");
    reveal_strlit("TYPE");
    reveal_strlit("type");
    reveal_strlit("XADD");
    reveal_strlit("xadd");
    assert("ping"@[0] == 'p' && "echo"@[0] == 'e' && "keys"@[0] == 'k' && "type"@[0] == 't'
        && "xadd"@[0] == 'x');
    assert("set"@[0] == 's' && "get"@[0] == 'g');
    assert(ascii_lower("PING"@) =~= "ping"@ && ascii_lower("ping"@) =~= "ping"@);
    assert(ascii_lower("ECHO"@) =~= "echo"@ && ascii_lower("echo"@) =~= "echo"@);
    assert(ascii_lower("SET"@) =~= "set"@ && ascii_lower("set"@) =~= "set"@);
    assert(ascii_lower("GET"@) =~= "get"@ && ascii_lower("get"@) =~= "get"@);
    assert(ascii_lower("CONFIG"@) =~= "config"@ && ascii_lower("config"@) =~= "config"@);
    assert(ascii_lower("KEYS"@) =~= "keys"@ && ascii_lower("keys"@) =~= "keys"@);
    assert(ascii_lower("TYPE"@) =~= "type"@ && ascii_lower("type"@) =~= "type"@);
    assert(ascii_lower("XADD"@) =~= "xadd"@ && ascii_lower("xadd"@) =~= "xadd"@);
}

/// A command is refused as unknown exactly when the lower-case form of its
/// name is none of the verbs, and then the store is left alone.
pub proof fn law_refused_exactly_unknown(cmd: CommandView, db: DatabaseView, now: Instant)
    ensures
        verb_named(folded(cmd.name)) is None <==> reply_to(cmd, db, now) == Err::<
            Seq<char>,
            ErrorView,
        >(ErrorView::UnknownCommand(cmd.name)),
        verb_named(folded(cmd.name)) is None ==> state_after(cmd, db, now) == db,
{
}

/// Two commands whose names have the same lower-case form, and whose
/// arguments are the same, are answered alike and leave the store alike.
pub proof fn law_same_fold_same_answer(
    one: CommandView,
    other: CommandView,
    db: DatabaseView,
    now: Instant,
)
    requires
        folded(one.name) == folded(other.name),
        one.args == other.args,
        verb_of(one.name) is Some,
    ensures
        reply_to(one, db, now) == reply_to(other, db, now),
        state_after(one, db, now) == state_after(other, db, now),
{
}

/// `CONFIG GET name` answers the name and its value, for every name that
/// the configuration holds.
pub proof fn law_config_round_trip(
    db: DatabaseView,
    subcommand: Seq<char>,
    name: Seq<char>,
    value: Seq<char>,
)
    requires
        db.config.get(name) == Some(value),
    ensures
        config_reply(seq![subcommand, name], db) == answered(
            array_of(seq![name, value]),
        ),
{
}

/// A setting that was given at startup is found under its name afterwards.
pub proof fn law_seeded_settings(
    config: DictView<Seq<char>>,
    dir: Option<String>,
    dbfilename: Option<String>,
)
    ensures
        dir matches Some(d) ==> with_setting(
            with_setting(config, "dir"@, dir),
            "dbfilename"@,
            dbfilename,
        ).get("dir"@) == Some(d@),
        dbfilename matches Some(f) ==> with_setting(
            with_setting(config, "dir"@, dir),
            "dbfilename"@,
            dbfilename,
        ).get("dbfilename"@) == Some(f@),
{
    reveal_strlit("dir");
    reveal_strlit("dbfilename");
    assert("dir"@.len() != "dbfilename"@.len());
}

/// `KEYS *` answers the keys of the store: each key once, and nothing else.
pub proof fn law_keys_lists_every_key(db: DatabaseView)
    requires
        db.data.wf(),
    ensures
        keys_reply(seq!["*"@], db) == answered(array_of(db.data.order)),
        db.data.order.no_duplicates(),
        db.data.order.to_set() == db.data.map.dom(),
{
    db.data.lemma_order_is_domain();
}

/// Some lines with a line ending between each two neighbours.
pub open spec fn join_lines(parts: Seq<Seq<char>>) -> Seq<char>
    decreases parts.len(),
{
    if parts.len() == 0 {
        Seq::empty()
    } else if parts.len() == 1 {
        parts[0]
    } else {
        parts[0] + crlf() + join_lines(parts.drop_first())
    }
}

/// The lines of a text are what the line endings separate: no line holds a
/// line ending, and the lines with a line ending between each two
/// neighbours are the text again.
pub proof fn law_lines_rejoin(s: Seq<char>)
    ensures
        lines(s).len() >= 1,
        join_lines(lines(s)) == s,
        forall|i: int, k: int| 0 <= i < lines(s).len() ==> !#[trigger] crlf_at(lines(s)[i], k),
    decreases s.len(),
{
    lemma_first_crlf(s);
    let at = first_crlf(s);
    if at + 2 <= s.len() {
        let head = s.take(at);
        let tail = s.skip(at + 2);
        let rest = lines(tail);
        law_lines_rejoin(tail);
        assert(lines(s) == seq![head] + rest);
        assert(lines(s).drop_first() =~= rest);
        assert(head + crlf() + tail =~= s);
        assert forall|i: int, k: int| 0 <= i < lines(s).len() implies !#[trigger] crlf_at(
            lines(s)[i],
            k,
        ) by {
            if i == 0 {
                if crlf_at(head, k) {
                    assert(crlf_at(s, k));
                }
            } else {
                assert(lines(s)[i] == rest[i - 1]);
            }
        }
    }
}

/// The bytes that write a length below 64 in one byte.
pub open spec fn short_length(n: nat) -> Seq<u8> {
    seq![n as u8]
}

/// The bytes that write a length below 16384 in two bytes: the mark `01`
/// and the high six bits, then the low eight bits.
pub open spec fn medium_length(n: nat) -> Seq<u8> {
    seq![(0x40 + n / 256) as u8, (n % 256) as u8]
}

/// The bytes that write a length below 2^32 in five bytes: the mark `10`
/// over six bits that carry nothing, then the length with the most
/// significant byte first.
pub open spec fn long_length(n: nat, spare: nat) -> Seq<u8> {
    seq![
        (0x80 + spare) as u8,
        (n / 0x100_0000) as u8,
        (n / 0x1_0000 % 256) as u8,
        (n / 0x100 % 256) as u8,
        (n % 256) as u8,
    ]
}

/// A length written in one byte is read back, and the bytes after it are
/// left.
pub proof fn law_short_length_round_trip(n: nat, rest: Seq<u8>)
    requires
        n < 64,
    ensures
        length_at(short_length(n) + rest) == Some((n as u32, rest)),
{
    assert((short_length(n) + rest).skip(1) =~= rest);
}

/// A length written in two bytes is read back, and the bytes after it are
/// left.
pub proof fn law_medium_length_round_trip(n: nat, rest: Seq<u8>)
    requires
        n < 16384,
    ensures
        length_at(medium_length(n) + rest) == Some((n as u32, rest)),
{
    let s = medium_length(n) + rest;
    assert(s.skip(1).skip(1) =~= rest);
    assert(s.skip(1)[0] == (n % 256) as u8);
}

/// A length written in five bytes is read back, whatever the six spare bits
/// hold, and the bytes after it are left.
pub proof fn law_long_length_round_trip(n: nat, spare: nat, rest: Seq<u8>)
    requires
        n < 0x1_0000_0000,
        spare < 64,
    ensures
        length_at(long_length(n, spare) + rest) == Some((n as u32, rest)),
{
    let s = long_length(n, spare) + rest;
    let body = s.skip(1).take(4);
    assert(s.skip(1).skip(4) =~= rest);
    assert(body.drop_last() =~= seq![s[1], s[2], s[3]]);
    assert(body.drop_last().drop_last() =~= seq![s[1], s[2]]);
    assert(body.drop_last().drop_last().drop_last() =~= seq![s[1]]);
    assert(body.drop_last().drop_last().drop_last().drop_last() =~= Seq::<u8>::empty());
    reveal_with_fuel(be_value, 5);
    assert(be_value(body) == n);
}

} // verus!
