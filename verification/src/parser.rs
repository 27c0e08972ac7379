//! The snapshot decoder: from the bytes of a dump file to the entries it
//! records.
//!
//! The format is stated twice. The spec functions say, on a plain sequence of
//! bytes, what each piece of the file means and what is left after it. The
//! executable functions read the same pieces from a byte cursor and are
//! proved to agree.

use crate::buffer;
use crate::buffer::{be_value, le_value, unread};
use crate::clock;
use crate::clock::{
    utc_from_millis, Instant, LAST_SECONDS_DEADLINE, NANOS_PER_MILLI, NANOS_PER_SECOND,
};
use crate::database::{string_value, Value, ValueView};
use crate::dict::{Dict, DictView};
use crate::error::{Error, ErrorView};
use crate::text;
use bytes::Bytes;
use vstd::prelude::*;
use vstd::utf8::{decode_utf8, valid_utf8};

verus! {

/// The number of bytes of the file header, which is skipped unread.
pub const HEADER_LEN: usize = 9;

/// The opcode that opens the database section.
pub const OP_DATABASE: u8 = 0xFE;

/// The opcode before a deadline in whole seconds.
pub const OP_EXPIRE_SECONDS: u8 = 0xFD;

/// The opcode before a deadline in milliseconds.
pub const OP_EXPIRE_MILLIS: u8 = 0xFC;

/// A length whose first byte is `start`, read from the bytes `rest` that
/// follow it: the length and what is left. The top two bits of `start` pick
/// the form. `00`: the other six bits are the length. `01`: the other six
/// bits and the next byte form a 14-bit length, high bits first. `10`: the
/// next four bytes are the length, big-endian. `11`: the form is not
/// supported and reads as zero.
pub open spec fn length_after(start: u8, rest: Seq<u8>) -> Option<(u32, Seq<u8>)> {
    if start < 0x40 {
        Some((start as u32, rest))
    } else if start < 0x80 {
        if rest.len() < 1 {
            None
        } else {
            Some((((start - 0x40) * 256 + rest[0]) as u32, rest.skip(1)))
        }
    } else if start < 0xC0 {
        if rest.len() < 4 {
            None
        } else {
            Some((be_value(rest.take(4)) as u32, rest.skip(4)))
        }
    } else {
        Some((0u32, rest))
    }
}

/// A length at the head of `s`.
pub open spec fn length_at(s: Seq<u8>) -> Option<(u32, Seq<u8>)> {
    if s.len() < 1 {
        None
    } else {
        length_after(s[0], s.skip(1))
    }
}

/// A text at the head of `s`: a length, then that many bytes of UTF-8.
pub open spec fn text_at(s: Seq<u8>) -> Option<(Seq<char>, Seq<u8>)> {
    match length_at(s) {
        None => None,
        Some((n, rest)) => {
            if rest.len() < n || !valid_utf8(rest.take(n as int)) {
                None
            } else {
                Some((decode_utf8(rest.take(n as int)), rest.skip(n as int)))
            }
        },
    }
}

/// A key and its value at the head of `s`: two texts.
pub open spec fn pair_at(s: Seq<u8>) -> Option<((Seq<char>, Seq<char>), Seq<u8>)> {
    match text_at(s) {
        None => None,
        Some((key, rest)) => match text_at(rest) {
            None => None,
            Some((value, left)) => Some(((key, value), left)),
        },
    }
}

/// The deadline that a count of milliseconds since 1970 stands for. A count
/// that does not fit a signed 64-bit integer, or that names an instant the
/// calendar cannot represent, stands for no deadline.
pub open spec fn deadline(millis: nat) -> Option<Instant> {
    if millis > i64::MAX {
        None
    } else {
        match utc_from_millis(millis as i64) {
            Some(t) => Some((t * NANOS_PER_MILLI) as Instant),
            None => None,
        }
    }
}

/// The deadline that follows the opcode `opcode`, read from `rest`: four
/// little-endian bytes of seconds after [`OP_EXPIRE_SECONDS`], eight
/// little-endian bytes of milliseconds after [`OP_EXPIRE_MILLIS`], no bytes
/// and no deadline after anything else. A count of seconds always stands
/// for a deadline; a count of milliseconds may be out of range.
pub open spec fn expiry_after(opcode: u8, rest: Seq<u8>) -> Option<(Option<Instant>, Seq<u8>)> {
    if opcode == OP_EXPIRE_SECONDS {
        if rest.len() < 4 {
            None
        } else {
            Some(
                (
                    Some((le_value(rest.take(4)) * NANOS_PER_SECOND) as Instant),
                    rest.skip(4),
                ),
            )
        }
    } else if opcode == OP_EXPIRE_MILLIS {
        if rest.len() < 8 {
            None
        } else {
            Some((deadline(le_value(rest.take(8))), rest.skip(8)))
        }
    } else {
        Some((None, rest))
    }
}

/// What follows the deadline of an entry: the key and the value, stored as a
/// string with that deadline.
pub open spec fn entry_body(expire_at: Option<Instant>, s: Seq<u8>) -> Option<
    ((Seq<char>, ValueView), Seq<u8>),
> {
    match pair_at(s) {
        None => None,
        Some(((key, value), left)) => Some(((key, string_value(value, expire_at)), left)),
    }
}

/// One entry at the head of `s`. Its first byte is an expiry opcode, which
/// is followed by a deadline and then by the byte of the value type, or it
/// is itself the byte of the value type. The value type is not looked at.
pub open spec fn entry_at(s: Seq<u8>) -> Option<((Seq<char>, ValueView), Seq<u8>)> {
    if s.len() < 1 {
        None
    } else if s[0] == OP_EXPIRE_SECONDS || s[0] == OP_EXPIRE_MILLIS {
        match expiry_after(s[0], s.skip(1)) {
            None => None,
            Some((expire_at, rest)) => {
                if rest.len() < 1 {
                    None
                } else {
                    entry_body(expire_at, rest.skip(1))
                }
            },
        }
    } else {
        entry_body(None, s.skip(1))
    }
}

/// `count` entries at the head of `s`, added one after the other to `found`.
pub open spec fn entries_at(s: Seq<u8>, count: nat, found: DictView<ValueView>) -> Option<
    DictView<ValueView>,
>
    decreases count,
{
    if count == 0 {
        Some(found)
    } else {
        match entry_at(s) {
            None => None,
            Some(((key, value), rest)) => entries_at(
                rest,
                (count - 1) as nat,
                found.insert(key, value),
            ),
        }
    }
}

/// What follows the first [`OP_DATABASE`] in `s`.
pub open spec fn after_marker(s: Seq<u8>) -> Option<Seq<u8>>
    decreases s.len(),
{
    if s.len() < 1 {
        None
    } else if s[0] == OP_DATABASE {
        Some(s.skip(1))
    } else {
        after_marker(s.skip(1))
    }
}

/// The database section of a file, from the byte after its marker: the index
/// of the database and a flag, one byte each and both passed over; the
/// number of entries; the number of entries with a deadline, which is read
/// and not used; then the entries.
pub open spec fn database_section(s: Seq<u8>) -> Option<DictView<ValueView>> {
    if s.len() < 2 {
        None
    } else {
        match length_at(s.skip(2)) {
            None => None,
            Some((count, rest)) => match length_at(rest) {
                None => None,
                Some((_, entries)) => entries_at(entries, count as nat, DictView::empty()),
            },
        }
    }
}

/// The entries that the bytes of a snapshot file record, or nothing if the
/// file ends early or holds text that is not UTF-8. The header is skipped,
/// and so is everything up to the first database marker.
pub open spec fn snapshot(s: Seq<u8>) -> Option<DictView<ValueView>> {
    if s.len() < HEADER_LEN {
        None
    } else {
        match after_marker(s.skip(HEADER_LEN as int)) {
            None => None,
            Some(section) => database_section(section),
        }
    }
}

/// The decoder of snapshot files.
pub struct Parser;

impl Parser {
    /// Takes one byte from the cursor.
    fn read_byte(bytes: &mut Bytes) -> (r: Result<u8, Error>)
        ensures
            match r {
                Ok(byte) => {
                    &&& unread(*old(bytes)).len() >= 1
                    &&& byte == unread(*old(bytes))[0]
                    &&& unread(*final(bytes)) == unread(*old(bytes)).skip(1)
                },
                Err(e) => e@ == ErrorView::EncodingError && unread(*old(bytes)).len() < 1,
            },
    {
        if buffer::len(bytes) < 1 {
            return Err(Error::EncodingError);
        }
        Ok(buffer::get_u8(bytes))
    }

    /// Reads the rest of a length whose first byte, `start`, was already
    /// taken from the cursor. A length that is cut short leaves the cursor
    /// where it was.
    pub fn decode_length(start: u8, bytes: &mut Bytes) -> (r: Result<u32, Error>)
        ensures
            match r {
                Ok(n) => length_after(start, unread(*old(bytes))) == Some(
                    (n, unread(*final(bytes))),
                ),
                Err(e) => {
                    &&& e@ == ErrorView::EncodingError
                    &&& length_after(start, unread(*old(bytes))) is None
                    &&& unread(*final(bytes)) == unread(*old(bytes))
                },
            },
    {
        if start < 0x40 {
            Ok(start as u32)
        } else if start < 0x80 {
            if buffer::len(bytes) < 1 {
                return Err(Error::EncodingError);
            }
            let low = buffer::get_u8(bytes);
            Ok((start - 0x40) as u32 * 256 + low as u32)
        } else if start < 0xC0 {
            if buffer::len(bytes) < 4 {
                return Err(Error::EncodingError);
            }
            Ok(buffer::get_u32(bytes))
        } else {
            Ok(0)
        }
    }

    /// Reads a length from the cursor.
    fn read_length(bytes: &mut Bytes) -> (r: Result<u32, Error>)
        ensures
            match r {
                Ok(n) => length_at(unread(*old(bytes))) == Some((n, unread(*final(bytes)))),
                Err(e) => e@ == ErrorView::EncodingError && length_at(unread(*old(bytes))) is None,
            },
    {
        let start = match Self::read_byte(bytes) {
            Ok(start) => start,
            Err(e) => {
                return Err(e);
            },
        };
        Self::decode_length(start, bytes)
    }

    /// Reads a text from the cursor.
    fn read_text(bytes: &mut Bytes) -> (r: Result<String, Error>)
        ensures
            match r {
                Ok(t) => text_at(unread(*old(bytes))) == Some((t@, unread(*final(bytes)))),
                Err(e) => e@ == ErrorView::EncodingError && text_at(unread(*old(bytes))) is None,
            },
    {
        let n = match Self::read_length(bytes) {
            Ok(n) => n as usize,
            Err(e) => {
                return Err(e);
            },
        };
        if buffer::len(bytes) < n {
            return Err(Error::EncodingError);
        }
        let raw = buffer::split_to(bytes, n);
        match text::from_utf8(raw) {
            Some(t) => Ok(t),
            None => Err(Error::EncodingError),
        }
    }

    /// Reads a key and its value from the cursor. The value type is taken
    /// and not looked at: every value is read as a text. After a failure the
    /// cursor stands where reading stopped.
    pub fn parse_key_value_pair(value_type: u8, bytes: &mut Bytes) -> (r: Result<
        (String, String),
        Error,
    >)
        ensures
            match r {
                Ok((key, value)) => pair_at(unread(*old(bytes))) == Some(
                    ((key@, value@), unread(*final(bytes))),
                ),
                Err(e) => e@ == ErrorView::EncodingError && pair_at(unread(*old(bytes))) is None,
            },
    {
        let key = match Self::read_text(bytes) {
            Ok(key) => key,
            Err(e) => {
                return Err(e);
            },
        };
        let value = match Self::read_text(bytes) {
            Ok(value) => value,
            Err(e) => {
                return Err(e);
            },
        };
        Ok((key, value))
    }

    /// The deadline that a count of milliseconds since 1970 stands for.
    pub fn deadline_of(millis: u64) -> (r: Option<Instant>)
        ensures
            r == deadline(millis as nat),
            r matches Some(t) ==> t == millis * NANOS_PER_MILLI,
            millis <= LAST_SECONDS_DEADLINE ==> r is Some,
    {
        if millis > i64::MAX as u64 {
            None
        } else {
            match clock::from_timestamp_millis(millis as i64) {
                Some(t) => Some(t as i128 * NANOS_PER_MILLI),
                None => None,
            }
        }
    }

    /// Reads the deadline that follows an expiry opcode from the cursor. A
    /// deadline that is cut short leaves the cursor where it was.
    pub fn parse_expire_date(duration_type: u8, bytes: &mut Bytes) -> (r: Result<
        Option<Instant>,
        Error,
    >)
        ensures
            match r {
                Ok(expire_at) => expiry_after(duration_type, unread(*old(bytes))) == Some(
                    (expire_at, unread(*final(bytes))),
                ),
                Err(e) => {
                    &&& e@ == ErrorView::EncodingError
                    &&& expiry_after(duration_type, unread(*old(bytes))) is None
                    &&& unread(*final(bytes)) == unread(*old(bytes))
                },
            },
    {
        if duration_type == OP_EXPIRE_SECONDS {
            if buffer::len(bytes) < 4 {
                return Err(Error::EncodingError);
            }
            let seconds = buffer::get_u32_le(bytes);
            Ok(Self::deadline_of(seconds as u64 * 1000))
        } else if duration_type == OP_EXPIRE_MILLIS {
            if buffer::len(bytes) < 8 {
                return Err(Error::EncodingError);
            }
            let millis = buffer::get_u64_le(bytes);
            Ok(Self::deadline_of(millis))
        } else {
            Ok(None)
        }
    }

    /// Reads what follows the deadline of an entry: the key and the value.
    /// After a failure the cursor stands where reading stopped.
    pub fn parse_entry_body(expire_at: Option<Instant>, value_type: u8, bytes: &mut Bytes) -> (r:
        Result<(String, Value), Error>)
        ensures
            match r {
                Ok((key, value)) => entry_body(expire_at, unread(*old(bytes))) == Some(
                    ((key@, value@), unread(*final(bytes))),
                ),
                Err(e) => e@ == ErrorView::EncodingError && entry_body(
                    expire_at,
                    unread(*old(bytes)),
                ) is None,
            },
    {
        match Self::parse_key_value_pair(value_type, bytes) {
            Ok((key, value)) => Ok((key, Value::string(value, expire_at))),
            Err(e) => Err(e),
        }
    }

    /// Reads one entry from the cursor.
    fn read_entry(bytes: &mut Bytes) -> (r: Result<(String, Value), Error>)
        ensures
            match r {
                Ok((key, value)) => entry_at(unread(*old(bytes))) == Some(
                    ((key@, value@), unread(*final(bytes))),
                ),
                Err(e) => e@ == ErrorView::EncodingError && entry_at(unread(*old(bytes))) is None,
            },
    {
        let opcode = match Self::read_byte(bytes) {
            Ok(opcode) => opcode,
            Err(e) => {
                return Err(e);
            },
        };
        if opcode == OP_EXPIRE_SECONDS || opcode == OP_EXPIRE_MILLIS {
            let expire_at = match Self::parse_expire_date(opcode, bytes) {
                Ok(expire_at) => expire_at,
                Err(e) => {
                    return Err(e);
                },
            };
            let value_type = match Self::read_byte(bytes) {
                Ok(value_type) => value_type,
                Err(e) => {
                    return Err(e);
                },
            };
            Self::parse_entry_body(expire_at, value_type, bytes)
        } else {
            Self::parse_entry_body(None, opcode, bytes)
        }
    }

    /// Decodes a snapshot file.
    pub fn parse(bytes: Bytes) -> (r: Result<Dict<Value>, Error>)
        ensures
            match r {
                Ok(data) => snapshot(unread(bytes)) == Some(data@) && data@.wf(),
                Err(e) => e@ == ErrorView::EncodingError && snapshot(unread(bytes)) is None,
            },
    {
        let ghost file = unread(bytes);
        let mut cursor = bytes;
        if buffer::len(&cursor) < HEADER_LEN {
            return Err(Error::EncodingError);
        }
        buffer::advance(&mut cursor, HEADER_LEN);
        let mut found = false;
        while !found
            invariant
                if found {
                    after_marker(file.skip(HEADER_LEN as int)) == Some(unread(cursor))
                } else {
                    after_marker(file.skip(HEADER_LEN as int)) == after_marker(unread(cursor))
                },
                file == unread(bytes),
                file.len() >= HEADER_LEN,
                snapshot(file) == match after_marker(file.skip(HEADER_LEN as int)) {
                    None => None,
                    Some(section) => database_section(section),
                },
            decreases unread(cursor).len() + if found { 0int } else { 1int },
        {
            let byte = match Self::read_byte(&mut cursor) {
                Ok(byte) => byte,
                Err(e) => {
                    return Err(e);
                },
            };
            found = byte == OP_DATABASE;
        }
        if buffer::len(&cursor) < 2 {
            return Err(Error::EncodingError);
        }
        buffer::advance(&mut cursor, 2);
        let count = match Self::read_length(&mut cursor) {
            Ok(count) => count,
            Err(e) => {
                return Err(e);
            },
        };
        match Self::read_length(&mut cursor) {
            Ok(_) => {},
            Err(e) => {
                return Err(e);
            },
        }
        let mut data: Dict<Value> = Dict::new();
        let mut done: u32 = 0;
        proof {
            DictView::<ValueView>::lemma_empty_wf();
        }
        while done < count
            invariant
                done <= count,
                file == unread(bytes),
                data@.wf(),
                snapshot(file) == entries_at(unread(cursor), (count - done) as nat, data@),
            decreases count - done,
        {
            let (key, value) = match Self::read_entry(&mut cursor) {
                Ok(entry) => entry,
                Err(e) => {
                    return Err(e);
                },
            };
            data.insert(key, value);
            done += 1;
        }
        Ok(data)
    }
}

} // verus!
