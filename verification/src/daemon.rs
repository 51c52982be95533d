//! The daemon's side of the protocol: what it answers to a client's message.

use vstd::prelude::*;
use crate::protocol::{
    decode_message, lemma_proxies_roundtrip, lemma_request_roundtrip, proxies_message,
    proxies_message_text, read_message, readable_message, request_message_text,
    ProtocolMessageHeader,
};
use crate::filters::{line_breaks, lines_of};
use crate::text::{avoids, join, lemma_split_join, views};

verus! {

/// The daemon's answer to the message `msg` when it serves `proxies`: the
/// proxies message for a proxy request, an empty message otherwise.
pub open spec fn reply_text(msg: Seq<char>, proxies: Seq<Seq<char>>) -> Seq<char> {
    match decode_message(msg) {
        Ok((ProtocolMessageHeader::RequesProxies, _)) => proxies_message_text(proxies),
        _ => Seq::empty(),
    }
}

/// Answers one message of a client.
pub fn handle_message(msg: &str, proxies: &Vec<String>) -> (r: String)
    requires
        readable_message(msg@),
    ensures
        r@ == reply_text(msg@, views(proxies@)),
{
    match read_message(msg) {
        Ok((ProtocolMessageHeader::RequesProxies, _body)) => proxies_message(proxies),
        _ => String::new(),
    }
}

/// A client that asks for proxies gets back a readable `PROXIES` message
/// whose body is the daemon's proxies, one per line, as long as no proxy
/// holds a space.
pub proof fn lemma_request_answered(proxies: Seq<Seq<char>>)
    requires
        forall|k: int| 0 <= k < proxies.len() ==> !(#[trigger] proxies[k]).contains(' '),
    ensures
        readable_message(request_message_text()),
        reply_text(request_message_text(), proxies) == proxies_message_text(proxies),
        readable_message(reply_text(request_message_text(), proxies)),
        decode_message(reply_text(request_message_text(), proxies)) == Ok::<_, Seq<char>>(
            (ProtocolMessageHeader::Proxies, join(proxies, seq!['\n'])),
        ),
{
    lemma_request_roundtrip();
    lemma_proxies_roundtrip(proxies);
}

/// What the client keeps of the daemon's answer to its request, cut into
/// lines, is the daemon's list itself, as long as the list is not empty and
/// no proxy holds a space or a line break.
pub proof fn lemma_client_reads_served_proxies(proxies: Seq<Seq<char>>)
    requires
        proxies.len() >= 1,
        forall|k: int| 0 <= k < proxies.len() ==> !(#[trigger] proxies[k]).contains(' '),
        forall|k: int| 0 <= k < proxies.len() ==> avoids(#[trigger] proxies[k], line_breaks()),
    ensures
        decode_message(reply_text(request_message_text(), proxies)) matches Ok((h, body)) && h
            == ProtocolMessageHeader::Proxies && lines_of(seq![body]) == proxies,
{
    lemma_request_answered(proxies);
    let body = join(proxies, seq!['\n']);
    assert(line_breaks().contains('\n')) by {
        assert(line_breaks()[1] == '\n');
    }
    lemma_split_join(proxies, '\n', line_breaks());
    let one = seq![body];
    assert(one.drop_last() =~= Seq::<Seq<char>>::empty());
    assert(one.last() == body);
    assert(lines_of(one.drop_last()) == Seq::<Seq<char>>::empty());
    assert(lines_of(one) == lines_of(one.drop_last()) + crate::text::split_by(body, line_breaks()));
    assert(lines_of(one) =~= crate::text::split_by(body, line_breaks()));
}

/// The daemon sends the proxies only in answer to a proxy request: a
/// request gets the proxies message, every other message (those that do not
/// decode included) gets the empty reply.
pub proof fn lemma_reply_only_to_requests(msg: Seq<char>, proxies: Seq<Seq<char>>)
    ensures
        (decode_message(msg) matches Ok((h, _)) && h == ProtocolMessageHeader::RequesProxies)
            ==> reply_text(msg, proxies) == proxies_message_text(proxies),
        !(decode_message(msg) matches Ok((h, _)) && h == ProtocolMessageHeader::RequesProxies)
            ==> reply_text(msg, proxies) == Seq::<char>::empty(),
        decode_message(msg) is Err ==> reply_text(msg, proxies) == Seq::<char>::empty(),
{
}

} // verus!
