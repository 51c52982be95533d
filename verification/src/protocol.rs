//! The text protocol with which a client asks the daemon for proxies and the
//! daemon answers: a header word, a space, then the body.

use vstd::prelude::*;
use vstd::std_specs::cmp::{PartialEqSpec, PartialEqSpecImpl};
use crate::text::{
    join, join_strings, lemma_join_avoids, lemma_split_by_concat, lemma_split_by_single, split_by,
    split_by_chars, str_equal, views,
};

verus! {

/// The kinds of protocol messages.
#[derive(Debug, Clone, Copy)]
pub enum ProtocolMessageHeader {
    // client messages
    RequesProxies,
    Goodbye,
    // server messages
    Processing,
    Done,
    Proxies,
}

/// A decoded message: its header and its body.
pub type ProtocolMessage = (ProtocolMessageHeader, String);

/// The word that stands for `h` on the wire.
pub open spec fn header_text(h: ProtocolMessageHeader) -> Seq<char> {
    match h {
        ProtocolMessageHeader::RequesProxies => "REQUEST_PROXIES"@,
        ProtocolMessageHeader::Goodbye => "GOODBYE"@,
        ProtocolMessageHeader::Processing => "PROCESSING"@,
        ProtocolMessageHeader::Done => "DONE"@,
        ProtocolMessageHeader::Proxies => "PROXIES"@,
    }
}

/// The header whose word is `t`, if any.
pub open spec fn header_named(t: Seq<char>) -> Option<ProtocolMessageHeader> {
    if t == "REQUEST_PROXIES"@ {
        Some(ProtocolMessageHeader::RequesProxies)
    } else if t == "GOODBYE"@ {
        Some(ProtocolMessageHeader::Goodbye)
    } else if t == "PROCESSING"@ {
        Some(ProtocolMessageHeader::Processing)
    } else if t == "DONE"@ {
        Some(ProtocolMessageHeader::Done)
    } else if t == "PROXIES"@ {
        Some(ProtocolMessageHeader::Proxies)
    } else {
        None
    }
}

/// The space-separated fields of a message.
pub open spec fn message_fields(t: Seq<char>) -> Seq<Seq<char>> {
    split_by(t, seq![' '])
}

/// Whether a message can be read without failing: its first field is a
/// header word, and a `PROXIES` message has a second field.
pub open spec fn readable_message(t: Seq<char>) -> bool {
    let f = message_fields(t);
    &&& header_named(f[0]) is Some
    &&& header_named(f[0]) == Some(ProtocolMessageHeader::Proxies) ==> f.len() >= 2
}

/// What reading the message `t` gives: a `REQUEST_PROXIES` request with an
/// empty body, a `PROXIES` message with its second field as body, or the
/// error text for every other header.
pub open spec fn decode_message(t: Seq<char>) -> Result<(ProtocolMessageHeader, Seq<char>), Seq<char>> {
    let f = message_fields(t);
    match header_named(f[0]) {
        Some(ProtocolMessageHeader::RequesProxies) => Ok(
            (ProtocolMessageHeader::RequesProxies, Seq::empty()),
        ),
        Some(ProtocolMessageHeader::Proxies) => Ok((ProtocolMessageHeader::Proxies, f[1])),
        _ => Err("Unable to decode message (Not yet implemented)"@),
    }
}

/// The text of the message that carries `proxies`, one per line.
pub open spec fn proxies_message_text(proxies: Seq<Seq<char>>) -> Seq<char> {
    "PROXIES"@ + seq![' '] + join(proxies, seq!['\n'])
}

/// The text of the client's request for proxies.
pub open spec fn request_message_text() -> Seq<char> {
    "REQUEST_PROXIES"@ + seq![' ']
}

impl ProtocolMessageHeader {
    /// The word that stands for this header on the wire.
    pub fn as_str(&self) -> (r: &'static str)
        ensures
            r@ == header_text(*self),
    {
        match self {
            ProtocolMessageHeader::RequesProxies => "REQUEST_PROXIES",
            ProtocolMessageHeader::Goodbye => "GOODBYE",
            ProtocolMessageHeader::Processing => "PROCESSING",
            ProtocolMessageHeader::Done => "DONE",
            ProtocolMessageHeader::Proxies => "PROXIES",
        }
    }

    /// The header whose word is `s`, if `s` is one of the five words.
    pub fn named(s: &str) -> (r: Option<Self>)
        ensures
            r == header_named(s@),
    {
        if str_equal(s, "REQUEST_PROXIES") {
            Some(ProtocolMessageHeader::RequesProxies)
        } else if str_equal(s, "GOODBYE") {
            Some(ProtocolMessageHeader::Goodbye)
        } else if str_equal(s, "PROCESSING") {
            Some(ProtocolMessageHeader::Processing)
        } else if str_equal(s, "DONE") {
            Some(ProtocolMessageHeader::Done)
        } else if str_equal(s, "PROXIES") {
            Some(ProtocolMessageHeader::Proxies)
        } else {
            None
        }
    }

    /// The header whose word is `s`; `s` must be one of the five words.
    pub fn from(s: &str) -> (r: Self)
        requires
            header_named(s@) is Some,
        ensures
            header_named(s@) == Some(r),
    {
        match Self::named(s) {
            Some(h) => h,
            None => ProtocolMessageHeader::Goodbye,
        }
    }
}

impl PartialEq for ProtocolMessageHeader {
    fn eq(&self, other: &Self) -> (r: bool) {
        str_equal(self.as_str(), other.as_str())
    }
}

impl PartialEqSpecImpl for ProtocolMessageHeader {
    open spec fn obeys_eq_spec() -> bool {
        true
    }

    open spec fn eq_spec(&self, other: &Self) -> bool {
        header_text(*self) == header_text(*other)
    }
}

/// Reads a message: splits it at spaces, reads the header from the first
/// field and, for a `PROXIES` message, takes the second field as body.
pub fn read_message(msg: &str) -> (r: Result<ProtocolMessage, &'static str>)
    requires
        readable_message(msg@),
    ensures
        match r {
            Ok((h, body)) => decode_message(msg@) == Ok::<_, Seq<char>>((h, body@)),
            Err(e) => decode_message(msg@) == Err::<(ProtocolMessageHeader, Seq<char>), _>(e@),
        },
{
    let spaces: Vec<char> = vec![' '];
    assert(spaces@ =~= seq![' ']);
    let args = split_by_chars(msg, &spaces);
    proof {
        crate::text::lemma_split_by_nonempty(msg@, seq![' ']);
    }
    assert(views(args@)[0] == args@[0]@);
    let header = ProtocolMessageHeader::from(args[0].as_str());
    match header {
        ProtocolMessageHeader::RequesProxies => Ok((ProtocolMessageHeader::RequesProxies, String::new())),
        ProtocolMessageHeader::Proxies => {
            assert(views(args@)[1] == args@[1]@);
            Ok((ProtocolMessageHeader::Proxies, args[1].clone()))
        },
        _ => Err("Unable to decode message (Not yet implemented)"),
    }
}

/// Whether `read_message` can read `msg`.
pub fn message_is_readable(msg: &str) -> (r: bool)
    ensures
        r == readable_message(msg@),
{
    let spaces: Vec<char> = vec![' '];
    assert(spaces@ =~= seq![' ']);
    let args = split_by_chars(msg, &spaces);
    proof {
        crate::text::lemma_split_by_nonempty(msg@, seq![' ']);
    }
    assert(views(args@)[0] == args@[0]@);
    match ProtocolMessageHeader::named(args[0].as_str()) {
        Some(ProtocolMessageHeader::Proxies) => args.len() >= 2,
        Some(_) => true,
        None => false,
    }
}

/// The client's request for proxies.
pub fn request_message() -> (r: String)
    ensures
        r@ == request_message_text(),
{
    let mut r = String::new();
    r.append(ProtocolMessageHeader::RequesProxies.as_str());
    r.push(' ');
    r
}

/// The message that carries `proxies`, one per line.
pub fn proxies_message(proxies: &Vec<String>) -> (r: String)
    ensures
        r@ == proxies_message_text(views(proxies@)),
{
    let mut r = String::new();
    r.append(ProtocolMessageHeader::Proxies.as_str());
    r.push(' ');
    let joined = join_strings(proxies, "\n");
    proof {
        reveal_strlit("\n");
        assert("\n"@ =~= seq!['\n']);
    }
    r.append(joined.as_str());
    assert(r@ =~= proxies_message_text(views(proxies@)));
    r
}


/// Reading the word of a header gives back that header.
pub proof fn lemma_header_roundtrip(h: ProtocolMessageHeader)
    ensures
        header_named(header_text(h)) == Some(h),
{
    reveal_strlit("REQUEST_PROXIES");
    reveal_strlit("GOODBYE");
    reveal_strlit("PROCESSING");
    reveal_strlit("DONE");
    reveal_strlit("PROXIES");
    assert("REQUEST_PROXIES"@.len() == 15);
    assert("GOODBYE"@.len() == 7);
    assert("PROCESSING"@.len() == 10);
    assert("DONE"@.len() == 4);
    assert("PROXIES"@.len() == 7);
    assert("GOODBYE"@[0] != "PROXIES"@[0]);
}

/// Two headers are `==` exactly when they are the same header.
pub proof fn lemma_header_eq(a: ProtocolMessageHeader, b: ProtocolMessageHeader)
    ensures
        PartialEqSpec::eq_spec(&a, &b) <==> a == b,
{
    lemma_header_roundtrip(a);
    lemma_header_roundtrip(b);
}

/// A header word holds no space.
proof fn lemma_header_text_has_no_space(h: ProtocolMessageHeader)
    ensures
        forall|i: int|
            0 <= i < header_text(h).len() ==> !seq![' '].contains(#[trigger] header_text(h)[i]),
{
    reveal_strlit("REQUEST_PROXIES");
    reveal_strlit("GOODBYE");
    reveal_strlit("PROCESSING");
    reveal_strlit("DONE");
    reveal_strlit("PROXIES");
    assert forall|i: int| 0 <= i < header_text(h).len() implies !seq![' '].contains(
        #[trigger] header_text(h)[i],
    ) by {
        assert(header_text(h)[i] != ' ');
        if seq![' '].contains(header_text(h)[i]) {
            assert(seq![' '][0] == header_text(h)[i]);
        }
    }
}

/// The fields of a header word followed by a space and a body without
/// spaces are the word and the body.
proof fn lemma_fields_of_header_and_body(h: ProtocolMessageHeader, body: Seq<char>)
    requires
        !body.contains(' '),
    ensures
        message_fields(header_text(h) + seq![' '] + body) == seq![header_text(h), body],
{
    let seps = seq![' '];
    assert(seps.contains(' ')) by {
        assert(seps[0] == ' ');
    }
    lemma_split_by_concat(header_text(h), ' ', body, seps);
    lemma_header_text_has_no_space(h);
    lemma_split_by_single(header_text(h), seps);
    assert forall|i: int| 0 <= i < body.len() implies !seps.contains(#[trigger] body[i]) by {
        if seps.contains(body[i]) {
            assert(seps[0] == body[i]);
            assert(body.contains(' '));
        }
    }
    lemma_split_by_single(body, seps);
    assert(seq![header_text(h)] + seq![body] =~= seq![header_text(h), body]);
}

/// The client's request is readable, and reading it gives a proxy request
/// with an empty body.
pub proof fn lemma_request_roundtrip()
    ensures
        readable_message(request_message_text()),
        decode_message(request_message_text()) == Ok::<_, Seq<char>>(
            (ProtocolMessageHeader::RequesProxies, Seq::<char>::empty()),
        ),
{
    let h = ProtocolMessageHeader::RequesProxies;
    lemma_fields_of_header_and_body(h, Seq::empty());
    assert(request_message_text() =~= header_text(h) + seq![' '] + Seq::<char>::empty());
    lemma_header_roundtrip(h);
}

/// A message built from proxies without spaces is readable, and reading it
/// gives a `PROXIES` message whose body is the proxies, one per line.
pub proof fn lemma_proxies_roundtrip(proxies: Seq<Seq<char>>)
    requires
        forall|k: int| 0 <= k < proxies.len() ==> !(#[trigger] proxies[k]).contains(' '),
    ensures
        readable_message(proxies_message_text(proxies)),
        decode_message(proxies_message_text(proxies)) == Ok::<_, Seq<char>>(
            (ProtocolMessageHeader::Proxies, join(proxies, seq!['\n'])),
        ),
{
    let h = ProtocolMessageHeader::Proxies;
    let body = join(proxies, seq!['\n']);
    assert(!seq!['\n'].contains(' ')) by {
        if seq!['\n'].contains(' ') {
            assert(seq!['\n'][0] == ' ');
        }
    }
    lemma_join_avoids(proxies, seq!['\n'], ' ');
    lemma_fields_of_header_and_body(h, body);
    lemma_header_roundtrip(h);
}

/// Only a proxy request and a proxies message decode: a message whose first
/// field is any other header word is answered with the error text.
pub proof fn lemma_other_headers_undecoded(t: Seq<char>)
    requires
        header_named(message_fields(t)[0]) is Some,
        header_named(message_fields(t)[0]) != Some(ProtocolMessageHeader::RequesProxies),
        header_named(message_fields(t)[0]) != Some(ProtocolMessageHeader::Proxies),
    ensures
        decode_message(t) == Err::<(ProtocolMessageHeader, Seq<char>), Seq<char>>(
            "Unable to decode message (Not yet implemented)"@,
        ),
{
}

/// A proxy request decodes with an empty body, whatever follows its word; a
/// proxies message decodes with its second field as body.
pub proof fn lemma_decoded_bodies(t: Seq<char>)
    ensures
        header_named(message_fields(t)[0]) == Some(ProtocolMessageHeader::RequesProxies)
            ==> decode_message(t) == Ok::<_, Seq<char>>(
            (ProtocolMessageHeader::RequesProxies, Seq::<char>::empty()),
        ),
        header_named(message_fields(t)[0]) == Some(ProtocolMessageHeader::Proxies) ==> decode_message(
            t,
        ) == Ok::<_, Seq<char>>((ProtocolMessageHeader::Proxies, message_fields(t)[1])),
{
}

} // verus!
