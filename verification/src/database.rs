//! The store: typed values under text keys, and the configuration.

use crate::buffer;
use crate::clock::Instant;
use crate::dict::{Dict, DictView};
use crate::error::{Error, ErrorView};
use crate::parser::{snapshot, Parser};
use vstd::prelude::*;
use vstd::string::StringExecFns;

verus! {

/// What kind of entry a value is. A stream carries its fields; a string
/// carries nothing besides the scalar. So a value has fields exactly when it
/// is a stream.
#[derive(Debug)]
pub enum Kind {
    String,
    Stream(Dict<String>),
}

/// One stored entry.
#[derive(Debug)]
pub struct Value {
    /// The payload of a string; for a stream, the identifier it was last
    /// given.
    pub scalar: String,
    /// The instant from which the entry is no longer readable; `None` for
    /// never.
    pub expire_at: Option<Instant>,
    pub kind: Kind,
}

/// The mathematical form of a [`Kind`].
pub enum KindView {
    String,
    Stream(DictView<Seq<char>>),
}

/// The mathematical form of a [`Value`].
pub struct ValueView {
    pub scalar: Seq<char>,
    pub expire_at: Option<Instant>,
    pub kind: KindView,
}

impl View for Kind {
    type V = KindView;

    open spec fn view(&self) -> KindView {
        match self {
            Kind::String => KindView::String,
            Kind::Stream(entries) => KindView::Stream(entries@),
        }
    }
}

impl View for Value {
    type V = ValueView;

    open spec fn view(&self) -> ValueView {
        ValueView { scalar: self.scalar@, expire_at: self.expire_at, kind: self.kind@ }
    }
}

/// A string entry.
pub open spec fn string_value(scalar: Seq<char>, expire_at: Option<Instant>) -> ValueView {
    ValueView { scalar, expire_at, kind: KindView::String }
}

/// A stream entry. A stream never expires.
pub open spec fn stream_value(id: Seq<char>, entries: DictView<Seq<char>>) -> ValueView {
    ValueView { scalar: id, expire_at: None, kind: KindView::Stream(entries) }
}

/// The name under which a kind is reported.
pub open spec fn kind_name(kind: KindView) -> Seq<char> {
    match kind {
        KindView::String => "string"@,
        KindView::Stream(_) => "stream"@,
    }
}

/// Whether an entry can still be read at the instant `now`: it has no
/// deadline, or its deadline lies after `now`.
pub open spec fn readable(value: ValueView, now: Instant) -> bool {
    match value.expire_at {
        None => true,
        Some(deadline) => deadline > now,
    }
}

impl Value {
    /// A string entry.
    pub fn string(scalar: String, expire_at: Option<Instant>) -> (value: Value)
        ensures
            value@ == string_value(scalar@, expire_at),
    {
        Value { scalar, expire_at, kind: Kind::String }
    }

    /// A stream entry.
    pub fn stream(id: String, entries: Dict<String>) -> (value: Value)
        ensures
            value@ == stream_value(id@, entries@),
    {
        Value { scalar: id, expire_at: None, kind: Kind::Stream(entries) }
    }

    /// The name under which the kind of this entry is reported.
    pub fn kind_name(&self) -> (name: String)
        ensures
            name@ == kind_name(self@.kind),
    {
        match &self.kind {
            Kind::String => String::from_str("string"),
            Kind::Stream(_) => String::from_str("stream"),
        }
    }

    /// Whether the entry can still be read at the instant `now`.
    pub fn is_readable(&self, now: Instant) -> (yes: bool)
        ensures
            yes == readable(self@, now),
    {
        match self.expire_at {
            None => true,
            Some(deadline) => deadline > now,
        }
    }
}

/// The whole state of the store.
#[derive(Debug)]
pub struct Database {
    /// The entries by key.
    pub data: Dict<Value>,
    /// The configuration by name. It is seeded at startup; no command writes
    /// to it.
    pub config: Dict<String>,
}

/// The mathematical form of a [`Database`].
pub struct DatabaseView {
    pub data: DictView<ValueView>,
    pub config: DictView<Seq<char>>,
}

impl View for Database {
    type V = DatabaseView;

    open spec fn view(&self) -> DatabaseView {
        DatabaseView { data: self.data@, config: self.config@ }
    }
}

/// The snapshot file that a configuration names: the directory, `/`, and the
/// file name; nothing unless both are configured.
pub open spec fn snapshot_path(config: DictView<Seq<char>>) -> Option<Seq<char>> {
    match (config.get("dir"@), config.get("dbfilename"@)) {
        (Some(dir), Some(name)) => Some(dir + seq!['/'] + name),
        _ => None,
    }
}

impl Database {
    /// A store without entries or configuration.
    pub fn new() -> (db: Self)
        ensures
            db@.data == DictView::<ValueView>::empty(),
            db@.config == DictView::<Seq<char>>::empty(),
    {
        Database { data: Dict::new(), config: Dict::new() }
    }

    /// The path of the snapshot file, if the configuration names one.
    pub fn get_path(&self) -> (path: Option<String>)
        ensures
            match path {
                Some(p) => snapshot_path(self@.config) == Some(p@),
                None => snapshot_path(self@.config) is None,
            },
    {
        let dir = match self.config.get(&String::from_str("dir")) {
            Some(dir) => dir,
            None => {
                return None;
            },
        };
        let name = match self.config.get(&String::from_str("dbfilename")) {
            Some(name) => name,
            None => {
                return None;
            },
        };
        proof {
            reveal_strlit("/");
        }
        let mut path = dir.clone();
        path.append("/");
        path.append(name.as_str());
        assert(path@ =~= dir@ + seq!['/'] + name@);
        Some(path)
    }

    /// Replaces the entries by those that the bytes of a snapshot file
    /// record. If the file cannot be decoded the store is left as it was.
    pub fn restore(&mut self, bytes: Vec<u8>) -> (r: Result<(), Error>)
        ensures
            match r {
                Ok(_) => {
                    &&& snapshot(bytes@) == Some(final(self)@.data)
                    &&& final(self)@.config == old(self)@.config
                },
                Err(e) => {
                    &&& e@ == ErrorView::EncodingError
                    &&& snapshot(bytes@) is None
                    &&& final(self)@ == old(self)@
                },
            },
    {
        match Parser::parse(buffer::from_vec(bytes)) {
            Ok(data) => {
                self.data = data;
                Ok(())
            },
            Err(e) => Err(e),
        }
    }
}

} // verus!
