//! The four shapes of reply, byte for byte.

use crate::text::{decimal, push_decimal, texts};
use vstd::prelude::*;
use vstd::string::StringExecFns;
use vstd::string::StringSliceAdditionalSpecFns;
use vstd::utf8::encode_utf8;

verus! {

/// The line ending of the protocol.
pub open spec fn crlf() -> Seq<char> {
    seq!['\r', '\n']
}

/// A status line: `+`, the text, a line ending.
pub open spec fn simple_string(text: Seq<char>) -> Seq<char> {
    seq!['+'] + text + crlf()
}

/// A bulk string: `$`, the length of the text in bytes, a line ending, the
/// text, a line ending.
pub open spec fn bulk_string(text: Seq<char>) -> Seq<char> {
    seq!['$'] + decimal(encode_utf8(text).len()) + crlf() + text + crlf()
}

/// The reply that stands for "no value".
pub open spec fn null_bulk() -> Seq<char> {
    seq!['$', '-', '1', '\r', '\n']
}

/// The bulk strings of some texts, one after the other.
pub open spec fn bulk_strings(items: Seq<Seq<char>>) -> Seq<char>
    decreases items.len(),
{
    if items.len() == 0 {
        Seq::empty()
    } else {
        bulk_strings(items.drop_last()) + bulk_string(items.last())
    }
}

/// An array: `*`, the number of items, a line ending, then each item as a
/// bulk string.
pub open spec fn array_of(items: Seq<Seq<char>>) -> Seq<char> {
    seq!['*'] + decimal(items.len()) + crlf() + bulk_strings(items)
}

/// Encodes a status line.
pub fn simple_string_encode(txt: &String) -> (reply: String)
    ensures
        reply@ == simple_string(txt@),
{
    proof {
        reveal_strlit("+");
        reveal_strlit("\r\n");
    }
    let mut reply = String::from_str("+");
    reply.append(txt.as_str());
    reply.append("\r\n");
    assert(reply@ =~= simple_string(txt@));
    reply
}

/// Encodes a bulk string.
pub fn bulk_string_encode(txt: &String) -> (reply: String)
    ensures
        reply@ == bulk_string(txt@),
{
    proof {
        reveal_strlit("$");
        reveal_strlit("\r\n");
    }
    let mut reply = String::from_str("$");
    push_decimal(&mut reply, txt.as_str().as_bytes().len());
    reply.append("\r\n");
    reply.append(txt.as_str());
    reply.append("\r\n");
    assert(reply@ =~= bulk_string(txt@));
    reply
}

/// Encodes an array of bulk strings.
pub fn array_string_encode(txt: Vec<&String>) -> (reply: String)
    ensures
        reply@ == array_of(texts(txt@)),
{
    proof {
        reveal_strlit("*");
        reveal_strlit("\r\n");
    }
    let ghost items = texts(txt@);
    let mut reply = String::from_str("*");
    push_decimal(&mut reply, txt.len());
    reply.append("\r\n");
    let ghost head = reply@;
    assert(head =~= seq!['*'] + decimal(items.len()) + crlf());
    assert(items.take(0) =~= Seq::<Seq<char>>::empty());
    let mut i: usize = 0;
    while i < txt.len()
        invariant
            i <= txt@.len(),
            items == texts(txt@),
            reply@ == head + bulk_strings(items.take(i as int)),
        decreases txt@.len() - i,
    {
        let one = bulk_string_encode(txt[i]);
        reply.append(one.as_str());
        proof {
            let next = items.take(i + 1);
            assert(next.drop_last() =~= items.take(i as int));
            assert(next.last() == txt@[i as int]@);
            assert(head + bulk_strings(items.take(i as int)) + bulk_string(next.last()) =~= head
                + bulk_strings(next));
        }
        i += 1;
    }
    assert(items.take(txt@.len() as int) =~= items);
    reply
}

/// Encodes the null bulk string.
pub fn null_bulk_string_encode() -> (reply: String)
    ensures
        reply@ == null_bulk(),
{
    proof {
        reveal_strlit("$-1\r\n");
    }
    let reply = String::from_str("$-1\r\n");
    assert(reply@ =~= null_bulk());
    reply
}

/// Encodes the null reply, which is the null bulk string.
pub fn null_encode() -> (reply: String)
    ensures
        reply@ == null_bulk(),
{
    null_bulk_string_encode()
}

} // verus!
