//! The configuration of the command line: where the server is, and how to come by that.

use crate::protocol::ClientError;
use crate::text::{
    has_char, is_white_space, law_trimmed, law_trimming_takes_only_white_space, trim, trimmed,
};
use vstd::prelude::*;

verus! {

/// Why an address is refused.
#[derive(Clone, Copy, Debug, PartialEq, Eq, Structural)]
pub enum UriFault {
    /// There is nothing but white space.
    Empty,
    /// There is neither a protocol nor a port.
    NoProtocolOrPort,
}

impl UriFault {
    /// The text for the user.
    pub open spec fn wording(self) -> Seq<char> {
        match self {
            UriFault::Empty => "Server URI cannot be empty"@,
            UriFault::NoProtocolOrPort => "URI should include protocol (http://) or port (:8443)"@,
        }
    }

    /// The text for the user.
    pub fn text(&self) -> (text: &'static str)
        ensures
            text@ == self.wording(),
    {
        match self {
            UriFault::Empty => "Server URI cannot be empty",
            UriFault::NoProtocolOrPort => "URI should include protocol (http://) or port (:8443)",
        }
    }
}

/// What is wrong with an address, if anything. Whatever holds `://` holds a colon, so a colon
/// decides.
pub open spec fn uri_fault(uri: Seq<char>) -> Option<UriFault> {
    if trimmed(uri).len() == 0 {
        Some(UriFault::Empty)
    } else if !uri.contains(':') {
        Some(UriFault::NoProtocolOrPort)
    } else {
        None
    }
}

/// Looks for what is wrong with an address.
pub fn check_uri(uri: &str) -> (fault: Option<UriFault>)
    ensures
        fault == uri_fault(uri@),
{
    if trim(uri).is_empty() {
        Some(UriFault::Empty)
    } else if !has_char(uri, ':') {
        Some(UriFault::NoProtocolOrPort)
    } else {
        None
    }
}

/// What is known of the configuration.
pub enum ConfigEvent {
    /// There is no file.
    Missing,
    /// The file holds this address.
    Parsed(String),
    /// The file holds something else; why it could not be read.
    Unreadable(String),
    /// The user has entered this address.
    Entered(String),
    /// The user has answered whether to start anew with a file that could not be read for this
    /// reason.
    Confirmed(bool, String),
}

/// What is to be done about the configuration.
pub enum ConfigAction {
    /// Greet the user and ask for the address.
    Welcome,
    /// Ask for the address again, and say why.
    AskAgain(UriFault),
    /// Write a new file with this address, and use it.
    Save(String),
    /// Use this address.
    Use(String),
    /// Ask whether to start anew; why the file could not be read.
    Confirm(String),
    /// Remove the file and start anew.
    StartAnew,
    /// Give up.
    Fail(ClientError),
}

/// Whether an action is the right one for an event.
pub open spec fn answers_config(event: ConfigEvent, action: ConfigAction) -> bool {
    match event {
        ConfigEvent::Missing => action == ConfigAction::Welcome,
        ConfigEvent::Parsed(uri) => action == ConfigAction::Use(uri),
        ConfigEvent::Unreadable(why) => action == ConfigAction::Confirm(why),
        ConfigEvent::Entered(uri) => match uri_fault(uri@) {
            Some(fault) => action == ConfigAction::AskAgain(fault),
            None => action == ConfigAction::Save(uri),
        },
        ConfigEvent::Confirmed(true, _) => action == ConfigAction::StartAnew,
        ConfigEvent::Confirmed(false, why) => action == ConfigAction::Fail(ClientError::Io(why)),
    }
}

/// What is to be done about the configuration.
pub fn load_config(event: ConfigEvent) -> (action: ConfigAction)
    ensures
        answers_config(event, action),
{
    match event {
        ConfigEvent::Missing => ConfigAction::Welcome,
        ConfigEvent::Parsed(uri) => ConfigAction::Use(uri),
        ConfigEvent::Unreadable(why) => ConfigAction::Confirm(why),
        ConfigEvent::Entered(uri) => match check_uri(uri.as_str()) {
            Some(fault) => ConfigAction::AskAgain(fault),
            None => ConfigAction::Save(uri),
        },
        ConfigEvent::Confirmed(anew, why) => if anew {
            ConfigAction::StartAnew
        } else {
            ConfigAction::Fail(ClientError::Io(why))
        },
    }
}

/// An address that was saved is one that the user entered, with something in it and with a colon;
/// when it is found again, it is used as it is and nothing is asked.
pub proof fn law_saved_address_is_used(
    entered: ConfigEvent,
    first: ConfigAction,
    uri: String,
    later: ConfigAction,
)
    requires
        answers_config(entered, first),
        first == ConfigAction::Save(uri),
        answers_config(ConfigEvent::Parsed(uri), later),
    ensures
        entered == ConfigEvent::Entered(uri),
        trimmed(uri@).len() > 0,
        uri@.contains(':'),
        later == ConfigAction::Use(uri),
{
}

/// An address that names a protocol is never refused for want of one: a text with `://` in it
/// holds a colon.
pub proof fn law_protocol_is_enough(before: Seq<char>, behind: Seq<char>)
    ensures
        uri_fault(before + "://"@ + behind) != Some(UriFault::NoProtocolOrPort),
{
    reveal_strlit("://");
    let uri = before + "://"@ + behind;
    assert(uri[before.len() as int] == ':');
}

/// An address that the user enters is refused as empty just where it is nothing but white space,
/// for want of a colon just where there is something else without one, and saved as it is where
/// neither holds. What the file holds is used as it is; the user is asked before a file that
/// cannot be read is given up, and nothing is done where the user does not want that.
pub proof fn law_configuration_is_come_by(event: ConfigEvent, action: ConfigAction)
    requires
        call_ensures(load_config, (event,), action),
    ensures
        match event {
            ConfigEvent::Missing => action is Welcome,
            ConfigEvent::Parsed(uri) => action == ConfigAction::Use(uri),
            ConfigEvent::Unreadable(why) => action == ConfigAction::Confirm(why),
            ConfigEvent::Entered(uri) => {
                let blank = forall|i: int|
                    0 <= i < uri@.len() ==> is_white_space(#[trigger] uri@[i]);
                &&& action == ConfigAction::AskAgain(UriFault::Empty) <==> blank
                &&& action == ConfigAction::AskAgain(UriFault::NoProtocolOrPort) <==> !blank
                    && !uri@.contains(':')
                &&& action == ConfigAction::Save(uri) <==> !blank && uri@.contains(':')
            },
            ConfigEvent::Confirmed(anew, why) => if anew {
                action is StartAnew
            } else {
                action == ConfigAction::Fail(ClientError::Io(why))
            },
        },
{
    if let ConfigEvent::Entered(uri) = event {
        law_trimming_takes_only_white_space(uri@);
        law_trimmed(uri@);
        let (start, end) = choose|start: int, end: int|
            {
                &&& 0 <= start <= end <= uri@.len()
                &&& trimmed(uri@) == #[trigger] uri@.subrange(start, end)
                &&& forall|i: int| 0 <= i < start ==> is_white_space(#[trigger] uri@[i])
                &&& forall|i: int| end <= i < uri@.len() ==> is_white_space(#[trigger] uri@[i])
            };
        if trimmed(uri@).len() > 0 {
            assert(trimmed(uri@)[0] == uri@[start]);
            assert(!is_white_space(uri@[start]));
        } else {
            assert(start == end);
            assert forall|i: int| 0 <= i < uri@.len() implies is_white_space(
                #[trigger] uri@[i],
            ) by {}
        }
    }
}

} // verus!
