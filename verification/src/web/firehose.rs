//! The stream of all messages to a web socket.

use vstd::prelude::*;

verus! {

/// How messages are written on the stream.
#[derive(Clone, Copy, Debug)]
pub enum Encoding {
    /// As the JSON of their basic parts.
    BasicJson,
    /// As lines of IRC.
    RawIrc,
}

/// What the stream needs next.
pub enum FirehoseStep<M, B> {
    /// Wait for the next message.
    Receive,
    /// Take the basic parts of a message.
    ToBasic(M),
    /// Write the basic parts of a message as JSON.
    ToJson(B),
    /// Write a message as a line of IRC.
    ToRawIrc(M),
    /// Send a text on the socket.
    Send(String),
    /// Close the socket.
    Close,
}

/// A stream of messages in an encoding.
#[derive(Clone, Copy, Debug)]
pub struct Firehose {
    pub encoding: Encoding,
}

/// Starts a stream, with the messages as JSON where that is asked for.
pub fn firehose(json_basic: bool) -> (stream: Firehose)
    ensures
        stream.encoding is BasicJson <==> json_basic,
{
    Firehose { encoding: if json_basic { Encoding::BasicJson } else { Encoding::RawIrc } }
}

impl Firehose {
    /// What comes of a message, or of the end of the messages.
    pub open spec fn after_receiving<M, B, E>(self, reply: Result<M, E>) -> FirehoseStep<M, B> {
        match reply {
            Ok(message) => match self.encoding {
                Encoding::BasicJson => FirehoseStep::ToBasic(message),
                Encoding::RawIrc => FirehoseStep::ToRawIrc(message),
            },
            Err(_) => FirehoseStep::Close,
        }
    }

    /// What comes of the basic parts of a message.
    pub open spec fn after_converting<M, B, E>(self, reply: Result<B, E>) -> FirehoseStep<M, B> {
        match reply {
            Ok(basic) => FirehoseStep::ToJson(basic),
            Err(_) => FirehoseStep::Receive,
        }
    }

    /// What comes of the text of a message.
    pub open spec fn after_encoding<M, B, E>(self, reply: Result<String, E>) -> FirehoseStep<M, B> {
        match reply {
            Ok(text) => FirehoseStep::Send(text),
            Err(_) => FirehoseStep::Receive,
        }
    }

    /// What comes of a text that was sent.
    pub open spec fn after_sending<M, B, E>(self, reply: Result<(), E>) -> FirehoseStep<M, B> {
        match reply {
            Ok(_) => FirehoseStep::Receive,
            Err(_) => FirehoseStep::Close,
        }
    }

    /// Goes on when a message has come. Where none came, because there will be none any more or
    /// because some were lost, the socket is closed.
    pub fn received<M, B, E>(&self, reply: Result<M, E>) -> (step: FirehoseStep<M, B>)
        ensures
            step == self.after_receiving::<M, B, E>(reply),
    {
        match reply {
            Ok(message) => match self.encoding {
                Encoding::BasicJson => FirehoseStep::ToBasic(message),
                Encoding::RawIrc => FirehoseStep::ToRawIrc(message),
            },
            Err(_) => FirehoseStep::Close,
        }
    }

    /// Goes on when the basic parts of a message have been taken; one that has none is passed
    /// over.
    pub fn converted<M, B, E>(&self, reply: Result<B, E>) -> (step: FirehoseStep<M, B>)
        ensures
            step == self.after_converting::<M, B, E>(reply),
    {
        match reply {
            Ok(basic) => FirehoseStep::ToJson(basic),
            Err(_) => FirehoseStep::Receive,
        }
    }

    /// Goes on when a message has been written as a text; one that cannot be is passed over.
    pub fn encoded<M, B, E>(&self, reply: Result<String, E>) -> (step: FirehoseStep<M, B>)
        ensures
            step == self.after_encoding::<M, B, E>(reply),
    {
        match reply {
            Ok(text) => FirehoseStep::Send(text),
            Err(_) => FirehoseStep::Receive,
        }
    }

    /// Goes on when a text has been sent; a socket that takes none any more is closed.
    pub fn sent<M, B, E>(&self, reply: Result<(), E>) -> (step: FirehoseStep<M, B>)
        ensures
            step == self.after_sending::<M, B, E>(reply),
    {
        match reply {
            Ok(_) => FirehoseStep::Receive,
            Err(_) => FirehoseStep::Close,
        }
    }
}

/// A message, with what comes of it where it is asked for: its basic parts, and its text.
pub struct Passage<M, B, E> {
    pub message: M,
    pub basic: Result<B, E>,
    pub text: Result<String, E>,
}

/// How far a step is from the next message.
pub open spec fn distance<M, B>(step: FirehoseStep<M, B>) -> nat {
    match step {
        FirehoseStep::Close => 0,
        FirehoseStep::Receive => 1,
        FirehoseStep::Send(_) => 2,
        FirehoseStep::ToJson(_) => 3,
        FirehoseStep::ToRawIrc(_) => 3,
        FirehoseStep::ToBasic(_) => 4,
    }
}

impl Firehose {
    /// The text that is sent for a message, if it can be written.
    pub open spec fn text_of<M, B, E>(self, passage: Passage<M, B, E>) -> Option<String> {
        if self.encoding is BasicJson && passage.basic is Err {
            None
        } else {
            match passage.text {
                Ok(text) => Some(text),
                Err(_) => None,
            }
        }
    }

    /// The texts of the messages that can be written, in order.
    pub open spec fn texts_of<M, B, E>(self, inbox: Seq<Passage<M, B, E>>) -> Seq<String>
        decreases inbox.len(),
    {
        if inbox.len() == 0 {
            Seq::empty()
        } else {
            let rest = self.texts_of(inbox.drop_first());
            match self.text_of(inbox[0]) {
                Some(text) => seq![text] + rest,
                None => rest,
            }
        }
    }

    /// The texts that the socket takes on a run from a step: `current` is the message that came
    /// last, the messages of `inbox` are still to come, then `end` does, and the socket takes as
    /// many texts as `room` says before it fails with `full`.
    pub open spec fn run<M, B, E>(
        self,
        step: FirehoseStep<M, B>,
        current: Passage<M, B, E>,
        inbox: Seq<Passage<M, B, E>>,
        end: E,
        room: nat,
        full: E,
    ) -> Seq<String>
        decreases inbox.len(), distance(step),
    {
        match step {
            FirehoseStep::Receive => if inbox.len() == 0 {
                let next = self.after_receiving::<M, B, E>(Err(end));
                self.run(next, current, inbox, end, room, full)
            } else {
                let next = self.after_receiving::<M, B, E>(Ok(inbox[0].message));
                self.run(next, inbox[0], inbox.drop_first(), end, room, full)
            },
            FirehoseStep::ToBasic(_) => {
                let next = self.after_converting::<M, B, E>(current.basic);
                self.run(next, current, inbox, end, room, full)
            },
            FirehoseStep::ToJson(_) => {
                let next = self.after_encoding::<M, B, E>(current.text);
                self.run(next, current, inbox, end, room, full)
            },
            FirehoseStep::ToRawIrc(_) => {
                let next = self.after_encoding::<M, B, E>(current.text);
                self.run(next, current, inbox, end, room, full)
            },
            FirehoseStep::Send(text) => if room == 0 {
                let next = self.after_sending::<M, B, E>(Err(full));
                self.run(next, current, inbox, end, room, full)
            } else {
                let next = self.after_sending::<M, B, E>(Ok(()));
                seq![text] + self.run(next, current, inbox, end, (room - 1) as nat, full)
            },
            FirehoseStep::Close => Seq::empty(),
        }
    }
}

/// A stream sends the texts of the messages that can be written, all of them, in order and each
/// once, until the messages end or the socket takes no more; after that it sends nothing.
pub proof fn law_stream_sends_what_can_be_written<M, B, E>(
    stream: Firehose,
    last: Passage<M, B, E>,
    inbox: Seq<Passage<M, B, E>>,
    end: E,
    room: nat,
    full: E,
)
    ensures
        ({
            let texts = stream.texts_of(inbox);
            let sent = stream.run(FirehoseStep::Receive, last, inbox, end, room, full);
            sent == if texts.len() <= room {
                texts
            } else {
                texts.take(room as int)
            }
        }),
    decreases inbox.len(),
{
    reveal_with_fuel(Firehose::run, 6);
    if inbox.len() > 0 {
        let rest = inbox.drop_first();
        law_stream_sends_what_can_be_written(stream, inbox[0], rest, end, room, full);
        if room > 0 {
            law_stream_sends_what_can_be_written(
                stream,
                inbox[0],
                rest,
                end,
                (room - 1) as nat,
                full,
            );
        }
        let texts = stream.texts_of(inbox);
        let sent = stream.run(FirehoseStep::Receive, last, inbox, end, room, full);
        if stream.text_of(inbox[0]) is Some {
            if room == 0 {
                assert(sent =~= Seq::empty());
                assert(texts.take(0) =~= Seq::empty());
            } else if texts.len() <= room {
                assert(sent =~= texts);
            } else {
                assert(sent =~= texts.take(room as int));
            }
        }
    }
}

/// Each message takes its way: it comes as JSON by its basic parts or as a line of IRC, as the
/// stream was started for; what can be written is sent; what cannot is passed over; and only the
/// end of the messages or of the socket closes the stream.
pub proof fn law_messages_take_their_way<M, B, E>(
    message: M,
    basic: B,
    text: String,
    error: E,
    stream: Firehose,
)
    ensures
        (Firehose { encoding: Encoding::BasicJson }).after_receiving::<M, B, E>(Ok(message))
            == FirehoseStep::<M, B>::ToBasic(message),
        (Firehose { encoding: Encoding::RawIrc }).after_receiving::<M, B, E>(Ok(message))
            == FirehoseStep::<M, B>::ToRawIrc(message),
        stream.after_receiving::<M, B, E>(Err(error)) is Close,
        stream.after_converting::<M, B, E>(Ok(basic)) == FirehoseStep::<M, B>::ToJson(basic),
        stream.after_converting::<M, B, E>(Err(error)) is Receive,
        stream.after_encoding::<M, B, E>(Ok(text)) == FirehoseStep::<M, B>::Send(text),
        stream.after_encoding::<M, B, E>(Err(error)) is Receive,
        stream.after_sending::<M, B, E>(Ok(())) is Receive,
        stream.after_sending::<M, B, E>(Err(error)) is Close,
{
}

/// A message has a text if it can be written, and, on a stream of JSON, has basic parts; the texts
/// of messages are those of the first ones followed by those of the others.
pub proof fn law_texts_are_those_of_the_messages<M, B, E>(
    stream: Firehose,
    passage: Passage<M, B, E>,
    inbox: Seq<Passage<M, B, E>>,
    more: Seq<Passage<M, B, E>>,
)
    ensures
        stream.text_of(passage) is Some <==> passage.text is Ok && (stream.encoding is RawIrc
            || passage.basic is Ok),
        stream.text_of(passage) matches Some(text) ==> passage.text == Ok::<_, E>(text),
        stream.texts_of(seq![passage]) == match stream.text_of(passage) {
            Some(text) => seq![text],
            None => Seq::empty(),
        },
        stream.texts_of(inbox + more) == stream.texts_of(inbox) + stream.texts_of(more),
    decreases inbox.len(),
{
    let one = seq![passage];
    assert(one.drop_first() =~= Seq::empty());
    assert(stream.texts_of(one.drop_first()) =~= Seq::empty());
    if inbox.len() > 0 {
        law_texts_are_those_of_the_messages(stream, passage, inbox.drop_first(), more);
        assert((inbox + more).drop_first() =~= inbox.drop_first() + more);
        assert(stream.texts_of(inbox + more) =~= stream.texts_of(inbox) + stream.texts_of(more));
    } else {
        assert(inbox + more =~= more);
        assert(stream.texts_of(inbox) + stream.texts_of(more) =~= stream.texts_of(more));
    }
}

} // verus!
