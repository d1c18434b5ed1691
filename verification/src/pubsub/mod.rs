//! The wire form of a chat message and its JSON codec. This is the only
//! format contract exposed to peers: a JSON object with fields `id`,
//! `source`, `msg`, `reply_id` and `topic`, tolerant of unknown extra
//! fields.

use vstd::prelude::*;

use crate::ids::{fresh_uuid, uuid_chars, uuid_to_string};

pub mod json;

verus! {

/// A message as shared between peers in a network chat group.
#[derive(Debug, PartialEq)]
pub struct Message {
    id: u128,
    source: String,
    msg: String,
    reply_id: Option<String>,
    topic: String,
}

/// The mathematical content of a wire message.
pub struct MessageView {
    pub id: u128,
    pub source: Seq<char>,
    pub msg: Seq<char>,
    pub reply_id: Option<Seq<char>>,
    pub topic: Seq<char>,
}

impl View for Message {
    type V = MessageView;

    closed spec fn view(&self) -> MessageView {
        MessageView {
            id: self.id,
            source: self.source@,
            msg: self.msg@,
            reply_id: match self.reply_id {
                Some(reply) => Some(reply@),
                None => None,
            },
            topic: self.topic@,
        }
    }
}

impl Message {
    /// Build a message with a freshly drawn id and no reply reference.
    pub fn new(source: String, msg: String, topic: String) -> (message: Self)
        ensures
            message@.source == source@,
            message@.msg == msg@,
            message@.topic == topic@,
            message@.reply_id is None,
            message@.id != 0,
    {
        Self { id: fresh_uuid(), source, msg, topic, reply_id: None }
    }

    /// Build a message from every field, id included.
    pub fn from_parts(
        id: u128,
        source: String,
        msg: String,
        reply_id: Option<String>,
        topic: String,
    ) -> (message: Self)
        ensures
            message@.id == id,
            message@.source == source@,
            message@.msg == msg@,
            message@.reply_id == match reply_id {
                Some(reply) => Some(reply@),
                None => None::<Seq<char>>,
            },
            message@.topic == topic@,
    {
        Self { id, source, msg, reply_id, topic }
    }

    /// The message id in its hyphenated text form.
    pub fn id_string(&self) -> (text: String)
        ensures
            text@ == uuid_chars(self@.id),
    {
        uuid_to_string(self.id)
    }

    /// The sender's peer id.
    pub fn source(&self) -> (source: &String)
        ensures
            source@ == self@.source,
    {
        &self.source
    }

    /// The message text.
    pub fn body(&self) -> (body: &String)
        ensures
            body@ == self@.msg,
    {
        &self.msg
    }

    /// The topic the message was sent to.
    pub fn topic(&self) -> (topic: &String)
        ensures
            topic@ == self@.topic,
    {
        &self.topic
    }
}

impl Message {
    /// Write the message as its canonical compact JSON object.
    pub fn serialize(&self) -> (text: String)
        ensures
            text@ == json::message_json(self@),
    {
        let mut out = String::new();
        out.append("{\"id\":\"");
        let idtext = uuid_to_string(self.id);
        out.append(idtext.as_str());
        out.append("\",\"source\":\"");
        json::append_escaped(&mut out, self.source.as_str());
        out.append("\",\"msg\":\"");
        json::append_escaped(&mut out, self.msg.as_str());
        out.append("\",\"reply_id\":");
        match &self.reply_id {
            Some(reply) => {
                out.append("\"");
                json::append_escaped(&mut out, reply.as_str());
                out.append("\"");
                proof {
                    reveal_strlit("\"");
                    assert(seq!['"'] =~= "\""@);
                    assert((seq!['"'] + json::escape_string(reply@)) + seq!['"']
                        =~= json::reply_id_json(self@.reply_id));
                }
            },
            None => {
                out.append("null");
            },
        }
        out.append(",\"topic\":\"");
        json::append_escaped(&mut out, self.topic.as_str());
        out.append("\"}");
        proof {
            assert(out@ =~= json::message_json(self@));
        }
        out
    }

    /// Read a message back from JSON text: the message it denotes, or
    /// nothing when the text is not a well-formed message object.
    pub fn deserialize(text: &str) -> (message: Option<Self>)
        ensures
            match message {
                Some(m) => json::message_of_chars(text@) == Some(m@),
                None => json::message_of_chars(text@) is None,
            },
    {
        let chars = crate::text::chars_of(text);
        json::read_message(&chars)
    }
}

impl Clone for Message {
    fn clone(&self) -> (copy: Self)
        ensures
            copy == *self,
    {
        Self {
            id: self.id,
            source: self.source.clone(),
            msg: self.msg.clone(),
            reply_id: match &self.reply_id {
                Some(reply) => Some(reply.clone()),
                None => None,
            },
            topic: self.topic.clone(),
        }
    }
}

} // verus!
