//! The protocol of an ingestion stream.
//!
//! A client streams settings and records; the service acknowledges the records. This is a
//! scaffold: records are acknowledged but not yet written to the log.

use vstd::prelude::*;

verus! {

/// How much more the client may send. All fields are at their defaults.
#[derive(Debug, Clone, Copy, PartialEq, Eq, Structural)]
pub struct WindowUpdate {}

impl Default for WindowUpdate {
    fn default() -> (update: Self)
        ensures
            update == (WindowUpdate {  }),
    {
        WindowUpdate {  }
    }
}

/// What a response carries.
#[derive(Debug, Clone, Copy, PartialEq, Eq, Structural)]
pub enum ResponsePayload {
    /// A new window.
    WindowUpdate(WindowUpdate),
}

/// A message from the service to the client.
#[derive(Debug, Clone, Copy, PartialEq, Eq, Structural)]
pub struct IngestResponse {
    /// The offset up to which records have been committed.
    pub last_committed: Option<u64>,
    /// What else the response carries.
    pub response: Option<ResponsePayload>,
}

/// What the service reads of a record.
#[derive(Debug, Clone, Copy, PartialEq, Eq, Structural)]
pub struct IngestRecord {
    /// The position of the record in the client's stream.
    pub offset: u64,
}

/// What a request carries.
#[derive(Debug)]
pub enum Payload<Settings> {
    /// Defaults for the records that follow.
    Settings(Settings),
    /// A record to ingest.
    Record(IngestRecord),
}

/// The acknowledgement of the record at `offset`.
pub open spec fn acknowledgement(offset: u64) -> IngestResponse {
    IngestResponse {
        last_committed: Some(offset),
        response: Some(ResponsePayload::WindowUpdate(WindowUpdate {  })),
    }
}

/// Acknowledges the record at `offset`.
pub fn ack(offset: u64) -> (response: IngestResponse)
    ensures
        response.last_committed == Some(offset),
        response.response == Some(ResponsePayload::WindowUpdate(WindowUpdate {  })),
        response == acknowledgement(offset),
{
    IngestResponse {
        last_committed: Some(offset),
        response: Some(ResponsePayload::WindowUpdate(WindowUpdate::default())),
    }
}

/// Streaming state carried across the inbound requests.
#[derive(Debug)]
pub struct State<Settings> {
    /// The settings that are in force, once the client has sent any.
    pub settings: Option<Settings>,
}

/// An inbound request, or the error in its place. A request may carry nothing.
pub type Inbound<Settings, E> = Result<Option<Payload<Settings>>, E>;

/// What to do after an inbound item.
#[derive(Debug)]
pub enum Action<E> {
    /// Send this to the client, and go on with the next item.
    Reply(Result<IngestResponse, E>),
    /// Go on with the next item.
    Continue,
    /// End the stream.
    Finish,
}

/// What is sent in answer to an inbound item.
pub open spec fn reply_to<Settings, E>(item: Inbound<Settings, E>) -> Option<
    Result<IngestResponse, E>,
> {
    match item {
        Ok(Some(Payload::Record(record))) => Some(Ok(acknowledgement(record.offset))),
        Ok(Some(Payload::Settings(_))) => None,
        Ok(None) => None,
        Err(error) => Some(Err(error)),
    }
}

/// The settings that are in force after an inbound item. New settings replace the old ones
/// wholesale.
pub open spec fn settings_after<Settings, E>(
    settings: Option<Settings>,
    item: Inbound<Settings, E>,
) -> Option<Settings> {
    match item {
        Ok(Some(Payload::Settings(new))) => Some(new),
        _ => settings,
    }
}

impl<Settings> State<Settings> {
    /// The state at the start of a stream.
    pub fn new() -> (state: Self)
        ensures
            state.settings is None,
    {
        State { settings: None }
    }

    /// Handles the next inbound item, `None` being the end of the inbound stream.
    pub fn ingest<E>(&mut self, next: Option<Inbound<Settings, E>>) -> (action: Action<E>)
        ensures
            match next {
                None => action is Finish && *final(self) == *old(self),
                Some(item) => {
                    &&& action == match reply_to(item) {
                        Some(reply) => Action::Reply(reply),
                        None => Action::Continue,
                    }
                    &&& final(self).settings == settings_after(old(self).settings, item)
                },
            },
            match next {
                None => action is Finish && final(self).settings == old(self).settings,
                Some(Ok(Some(Payload::Record(record)))) => {
                    &&& action matches Action::Reply(Ok(response))
                    &&& response.last_committed == Some(record.offset)
                    &&& response.response == Some(ResponsePayload::WindowUpdate(WindowUpdate {  }))
                    &&& final(self).settings == old(self).settings
                },
                Some(Ok(Some(Payload::Settings(settings)))) => {
                    &&& action is Continue
                    &&& final(self).settings == Some(settings)
                },
                Some(Ok(None)) => {
                    &&& action is Continue
                    &&& final(self).settings == old(self).settings
                },
                Some(Err(error)) => {
                    &&& action == Action::<E>::Reply(Err(error))
                    &&& final(self).settings == old(self).settings
                },
            },
    {
        let message = match next {
            None => {
                return Action::Finish;
            },
            Some(Ok(message)) => message,
            Some(Err(error)) => {
                return Action::Reply(Err(error));
            },
        };
        match message {
            // `Settings` establishes the defaults for subsequent records;
            // its fields are replaced wholesale (not merged) and it emits no ack.
            Some(Payload::Settings(settings)) => {
                self.settings = Some(settings);
                Action::Continue
            },
            Some(Payload::Record(record)) => Action::Reply(Ok(ack(record.offset))),
            // Empty request payload: nothing to do.
            None => Action::Continue,
        }
    }
}

/// All that is sent in answer to a stream of inbound items.
pub open spec fn replies<Settings, E>(items: Seq<Inbound<Settings, E>>) -> Seq<
    Result<IngestResponse, E>,
>
    decreases items.len(),
{
    if items.len() == 0 {
        Seq::empty()
    } else {
        match reply_to(items.last()) {
            Some(reply) => replies(items.drop_last()).push(reply),
            None => replies(items.drop_last()),
        }
    }
}

/// The settings that are in force after a stream of inbound items.
pub open spec fn settings_in_force<Settings, E>(items: Seq<Inbound<Settings, E>>) -> Option<
    Settings,
>
    decreases items.len(),
{
    if items.len() == 0 {
        None
    } else {
        settings_after(settings_in_force(items.drop_last()), items.last())
    }
}

/// Replies do not depend on what came before: the replies to a stream are those to its first part
/// followed by those to the rest.
pub proof fn law_replies_follow_the_items<Settings, E>(
    first: Seq<Inbound<Settings, E>>,
    rest: Seq<Inbound<Settings, E>>,
)
    ensures
        replies(first + rest) == replies(first) + replies(rest),
    decreases rest.len(),
{
    if rest.len() == 0 {
        assert(first + rest =~= first);
        assert(replies(rest) =~= Seq::empty());
    } else {
        law_replies_follow_the_items(first, rest.drop_last());
        assert((first + rest).drop_last() =~= first + rest.drop_last());
        assert(replies(first + rest) =~= replies(first) + replies(rest));
    }
}

/// Every record is acknowledged with its own offset, right behind the replies to what came before
/// it, and the acknowledgement carries a window update at its defaults.
pub proof fn law_records_are_acknowledged<Settings, E>(
    items: Seq<Inbound<Settings, E>>,
    i: int,
    offset: u64,
)
    requires
        0 <= i < items.len(),
        items[i] == Ok::<_, E>(Some(Payload::<Settings>::Record(IngestRecord { offset }))),
    ensures
        replies(items.take(i)).len() < replies(items).len(),
        replies(items)[replies(items.take(i)).len() as int] matches Ok(response) && {
            &&& response.last_committed == Some(offset)
            &&& response.response == Some(ResponsePayload::WindowUpdate(WindowUpdate {  }))
        },
{
    let head = items.take(i + 1);
    assert(head.drop_last() =~= items.take(i));
    assert(items =~= head + items.skip(i + 1));
    law_replies_follow_the_items(head, items.skip(i + 1));
}

/// An acknowledgement tells which record it is for: two records get the same acknowledgement only
/// if they have the same offset, and the offset can be read off it.
pub proof fn law_acknowledgements_tell_offsets_apart(one: u64, other: u64)
    ensures
        acknowledgement(one).last_committed == Some(one),
        acknowledgement(one) == acknowledgement(other) <==> one == other,
        acknowledgement(one).response == acknowledgement(other).response,
        acknowledgement(one).response == Some(ResponsePayload::WindowUpdate(WindowUpdate {  })),
{
}

/// Only records and errors are answered, each of them once: an error is passed on as it is, and
/// nothing else changes the replies.
pub proof fn law_only_records_and_errors_are_answered<Settings, E>(
    items: Seq<Inbound<Settings, E>>,
    item: Inbound<Settings, E>,
)
    ensures
        match item {
            Ok(Some(Payload::Record(record))) => {
                &&& replies(items.push(item)).len() == replies(items).len() + 1
                &&& replies(items.push(item)).drop_last() == replies(items)
                &&& replies(items.push(item)).last() matches Ok(response)
                &&& response.last_committed == Some(record.offset)
            },
            Err(error) => replies(items.push(item)) == replies(items).push(Err(error)),
            _ => replies(items.push(item)) == replies(items),
        },
{
    assert(items.push(item).drop_last() =~= items);
    if let Ok(Some(Payload::Record(record))) = item {
        assert(replies(items.push(item)).drop_last() =~= replies(items));
    }
}

/// Only settings change the settings that are in force: whatever else follows, the last ones stay.
pub proof fn law_settings_stay_until_replaced<Settings, E>(
    items: Seq<Inbound<Settings, E>>,
    item: Inbound<Settings, E>,
)
    requires
        !(item matches Ok(Some(Payload::Settings(_)))),
    ensures
        settings_in_force(items.push(item)) == settings_in_force(items),
{
    assert(items.push(item).drop_last() =~= items);
}

/// New settings replace the old ones wholesale and are not answered.
pub proof fn law_settings_are_replaced_wholesale<Settings, E>(
    items: Seq<Inbound<Settings, E>>,
    settings: Settings,
)
    ensures
        settings_in_force(items.push(Ok(Some(Payload::Settings(settings))))) == Some(settings),
        replies(items.push(Ok(Some(Payload::Settings(settings))))) == replies(items),
{
    let item: Inbound<Settings, E> = Ok(Some(Payload::Settings(settings)));
    assert(items.push(item).drop_last() =~= items);
}

} // verus!
