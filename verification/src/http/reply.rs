//! Replies as plain values: a status, headers in order, and a body.

use vstd::prelude::*;

verus! {

/// A reply to a request.
#[derive(Debug, Clone, PartialEq, Eq)]
pub struct Reply {
    pub status: u16,
    pub headers: Vec<(String, String)>,
    pub body: Vec<u8>,
}

/// What a reply says.
pub struct ReplyView {
    pub status: u16,
    pub headers: Seq<(Seq<char>, Seq<char>)>,
    pub body: Seq<u8>,
}

/// What a list of headers says.
pub open spec fn header_views(headers: Seq<(String, String)>) -> Seq<(Seq<char>, Seq<char>)> {
    headers.map_values(|header: (String, String)| (header.0@, header.1@))
}

impl View for Reply {
    type V = ReplyView;

    open spec fn view(&self) -> ReplyView {
        ReplyView { status: self.status, headers: header_views(self.headers@), body: self.body@ }
    }
}

impl ReplyView {
    /// The same reply with one more header.
    pub open spec fn with(self, name: Seq<char>, value: Seq<char>) -> ReplyView {
        ReplyView { headers: self.headers.push((name, value)), ..self }
    }

    /// A reply without headers.
    pub open spec fn plain(status: u16, body: Seq<u8>) -> ReplyView {
        ReplyView { status, headers: Seq::empty(), body }
    }

    /// A reply that is a text, with its content type.
    pub open spec fn text(status: u16, text: Seq<char>) -> ReplyView {
        ReplyView::plain(status, vstd::utf8::encode_utf8(text)).with(
            "content-type"@,
            "text/plain; charset=utf-8"@,
        )
    }
}

impl Reply {
    /// A reply without headers.
    pub fn new(status: u16, body: Vec<u8>) -> (reply: Self)
        ensures
            reply@ == ReplyView::plain(status, body@),
    {
        let reply = Reply { status, headers: Vec::new(), body };
        assert(reply@.headers =~= Seq::<(Seq<char>, Seq<char>)>::empty());
        reply
    }

    /// The same reply with one more header.
    pub fn with(self, name: &str, value: &str) -> (reply: Self)
        ensures
            reply@ == self@.with(name@, value@),
    {
        let mut headers = self.headers;
        headers.push((name.to_owned(), value.to_owned()));
        let reply = Reply { status: self.status, headers, body: self.body };
        assert(reply@.headers =~= self@.headers.push((name@, value@)));
        reply
    }

    /// A reply that is a text, with its content type.
    pub fn text(status: u16, text: &str) -> (reply: Self)
        ensures
            reply@ == ReplyView::text(status, text@),
    {
        Reply::new(status, text.as_bytes_vec()).with("content-type", "text/plain; charset=utf-8")
    }
}

/// A reply that is a JSON object saying whether the request succeeded, and a message.
#[derive(Debug, PartialEq, Eq)]
pub struct Message {
    pub status: u16,
    pub ok: bool,
    pub message: String,
}

impl Message {
    /// Whether this message says the given things.
    pub open spec fn says(self, status: u16, ok: bool, message: Seq<char>) -> bool {
        self.status == status && self.ok == ok && self.message@ == message
    }

    /// A refusal.
    pub fn refusal(status: u16, message: &str) -> (reply: Self)
        ensures
            reply.says(status, false, message@),
    {
        Message { status, ok: false, message: message.to_owned() }
    }
}

/// A further header changes nothing but the headers, to which it is added last.
pub proof fn a_header_is_added_last(reply: ReplyView, name: Seq<char>, value: Seq<char>)
    ensures
        reply.with(name, value).status == reply.status,
        reply.with(name, value).body == reply.body,
        reply.with(name, value).headers.len() == reply.headers.len() + 1,
        reply.with(name, value).headers.last() == (name, value),
        reply.with(name, value).headers.drop_last() == reply.headers,
{
    assert(reply.with(name, value).headers.drop_last() =~= reply.headers);
}

/// A plain reply has its status, its body and no header; a text is encoded and says so.
pub proof fn a_text_says_what_it_is(status: u16, text: Seq<char>, body: Seq<u8>)
    ensures
        ReplyView::plain(status, body).status == status,
        ReplyView::plain(status, body).body == body,
        ReplyView::plain(status, body).headers.len() == 0,
        ReplyView::text(status, text).status == status,
        ReplyView::text(status, text).body == vstd::utf8::encode_utf8(text),
        ReplyView::text(status, text).headers == seq![
            ("content-type"@, "text/plain; charset=utf-8"@),
        ],
{
    assert(ReplyView::text(status, text).headers =~= seq![
        ("content-type"@, "text/plain; charset=utf-8"@),
    ]);
}

} // verus!
