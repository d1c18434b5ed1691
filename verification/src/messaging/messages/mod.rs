//! Chat messages: the `Message` entity and the workflow that persists
//! and publishes one.

use vstd::prelude::*;

use crate::clock::now_millis;
use crate::ids::{fresh_uuid, uuid_chars, uuid_to_string};
use crate::storage::Record;

pub mod new_message;

pub use new_message::NewMessage;

verus! {

/// A message shared between peers in a network chat group.
#[derive(Debug)]
pub struct Message {
    id: u128,
    msg: String,
    source: String,
    ts: u64,
    group_name: String,
}

/// The mathematical content of a message.
pub struct MessageView {
    pub id: u128,
    pub msg: Seq<char>,
    pub source: Seq<char>,
    pub ts: u64,
    pub group_name: Seq<char>,
}

impl View for Message {
    type V = MessageView;

    closed spec fn view(&self) -> MessageView {
        MessageView {
            id: self.id,
            msg: self.msg@,
            source: self.source@,
            ts: self.ts,
            group_name: self.group_name@,
        }
    }
}

impl Message {
    /// Every message carries a non-nil id.
    pub open spec fn valid(&self) -> bool {
        self@.id != 0
    }

    /// A fresh message: a new id, the current instant, the given text,
    /// sender and target group.
    pub fn new(msg: &str, source: &str, group_name: &str) -> (message: Self)
        ensures
            message@.msg == msg@,
            message@.source == source@,
            message@.group_name == group_name@,
            message.valid(),
    {
        Self {
            id: fresh_uuid(),
            ts: now_millis(),
            source: source.to_owned(),
            group_name: group_name.to_owned(),
            msg: msg.to_owned(),
        }
    }

    /// The message id in its hyphenated text form.
    pub fn id(&self) -> (text: String)
        ensures
            text@ == uuid_chars(self@.id),
    {
        uuid_to_string(self.id)
    }

    /// The message text.
    pub fn body(&self) -> (body: &String)
        ensures
            body@ == self@.msg,
    {
        &self.msg
    }

    /// The sender's peer id.
    pub fn source(&self) -> (source: &String)
        ensures
            source@ == self@.source,
    {
        &self.source
    }

    /// The group the message is addressed to.
    pub fn group_name(&self) -> (group_name: &String)
        ensures
            group_name@ == self@.group_name,
    {
        &self.group_name
    }

    /// When the message was created, in milliseconds since the Unix
    /// epoch.
    pub fn timestamp_millis(&self) -> (ts: u64)
        ensures
            ts == self@.ts,
    {
        self.ts
    }
}

impl Clone for Message {
    fn clone(&self) -> (copy: Self)
        ensures
            copy == *self,
    {
        Self {
            id: self.id,
            msg: self.msg.clone(),
            source: self.source.clone(),
            ts: self.ts,
            group_name: self.group_name.clone(),
        }
    }
}

impl Record for Message {
    fn duplicate(&self) -> (copy: Self) {
        self.clone()
    }
}

} // verus!
