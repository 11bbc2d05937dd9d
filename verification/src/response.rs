//! The status response as the protocol layer hands it over, before any
//! interpretation.

use vstd::prelude::*;

verus! {

/// The server's description, which the protocol allows in two shapes.
#[derive(Debug, Clone, PartialEq, Eq)]
pub enum Description {
    /// The description is the text itself.
    Plain(String),
    /// The description is an object that carries the text in a field.
    Object { text: String },
}

/// A [`Description`] over sequences of characters.
pub enum DescriptionModel {
    Plain(Seq<char>),
    Object { text: Seq<char> },
}

impl DescriptionModel {
    /// The message of the day: the carried text, whatever the shape.
    pub open spec fn motd(self) -> Seq<char> {
        match self {
            DescriptionModel::Plain(text) => text,
            DescriptionModel::Object { text } => text,
        }
    }
}

impl View for Description {
    type V = DescriptionModel;

    open spec fn view(&self) -> DescriptionModel {
        match self {
            Description::Plain(text) => DescriptionModel::Plain(text@),
            Description::Object { text } => DescriptionModel::Object { text: text@ },
        }
    }
}

impl Description {
    /// Takes the text out of the description.
    pub fn into_motd(self) -> (motd: String)
        ensures
            motd@ == self@.motd(),
    {
        match self {
            Description::Plain(text) => text,
            Description::Object { text } => text,
        }
    }
}

/// One entry of the player sample: a name and an identifier, both as the
/// server sent them.
#[derive(Debug, Clone, PartialEq, Eq)]
pub struct SampleEntry {
    pub name: String,
    pub id: String,
}

/// A [`SampleEntry`] over sequences of characters.
pub struct EntryModel {
    pub name: Seq<char>,
    pub id: Seq<char>,
}

impl View for SampleEntry {
    type V = EntryModel;

    open spec fn view(&self) -> EntryModel {
        EntryModel { name: self.name@, id: self.id@ }
    }
}

/// The models of the entries of `entries`, in order.
pub open spec fn entry_models(entries: Seq<SampleEntry>) -> Seq<EntryModel> {
    Seq::new(entries.len(), |i: int| entries[i]@)
}

/// The players block of a response.
#[derive(Debug, Clone, PartialEq, Eq)]
pub struct RawPlayers {
    /// The number of players the server admits.
    pub max: u32,
    /// Some of the players that are online; a server may leave the list out.
    pub sample: Option<Vec<SampleEntry>>,
}

/// A [`RawPlayers`] over sequences.
pub struct PlayersModel {
    pub max: u32,
    pub sample: Option<Seq<EntryModel>>,
}

impl View for RawPlayers {
    type V = PlayersModel;

    open spec fn view(&self) -> PlayersModel {
        PlayersModel {
            max: self.max,
            sample: match self.sample {
                Some(entries) => Some(entry_models(entries@)),
                None => None,
            },
        }
    }
}

/// A well-formed status response.
#[derive(Debug, Clone, PartialEq, Eq)]
pub struct RawStatusResponse {
    pub version_name: String,
    pub description: Description,
    pub players: RawPlayers,
}

/// A [`RawStatusResponse`] over sequences.
pub struct ResponseModel {
    pub version_name: Seq<char>,
    pub description: DescriptionModel,
    pub players: PlayersModel,
}

impl View for RawStatusResponse {
    type V = ResponseModel;

    open spec fn view(&self) -> ResponseModel {
        ResponseModel {
            version_name: self.version_name@,
            description: self.description@,
            players: self.players@,
        }
    }
}

} // verus!
