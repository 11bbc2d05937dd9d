//! What a scan reports of a server that answered.

use crate::player_id::{parse_uuid, uuid_from_text};
use crate::response::{entry_models, DescriptionModel, EntryModel, RawPlayers, RawStatusResponse,
    ResponseModel, SampleEntry};
use vstd::prelude::*;

verus! {

/// One player of a server's sample, with an identifier that was read
/// successfully. The identifier is kept as the 128-bit value of the UUID.
#[derive(Debug, Clone, PartialEq, Eq)]
pub struct PlayerSample {
    pub username: String,
    pub id: u128,
}

/// A [`PlayerSample`] over sequences of characters.
pub struct PlayerModel {
    pub username: Seq<char>,
    pub id: u128,
}

impl View for PlayerSample {
    type V = PlayerModel;

    open spec fn view(&self) -> PlayerModel {
        PlayerModel { username: self.username@, id: self.id }
    }
}

/// The models of `players`, in order.
pub open spec fn player_models(players: Seq<PlayerSample>) -> Seq<PlayerModel> {
    Seq::new(players.len(), |i: int| players[i]@)
}

/// The public status of a reachable server.
#[derive(Debug, Clone, PartialEq, Eq)]
pub struct ServerStatus {
    pub address: String,
    pub version_name: String,
    pub motd: String,
    pub max_players: u32,
    pub players: Vec<PlayerSample>,
}

/// A [`ServerStatus`] over sequences.
pub struct StatusModel {
    pub address: Seq<char>,
    pub version_name: Seq<char>,
    pub motd: Seq<char>,
    pub max_players: u32,
    pub players: Seq<PlayerModel>,
}

impl View for ServerStatus {
    type V = StatusModel;

    open spec fn view(&self) -> StatusModel {
        StatusModel {
            address: self.address@,
            version_name: self.version_name@,
            motd: self.motd@,
            max_players: self.max_players,
            players: player_models(self.players@),
        }
    }
}

/// The player that a sample entry stands for when reading its identifier
/// gave `parsed`: none where the identifier was rejected.
pub open spec fn player_from(entry: EntryModel, parsed: Option<u128>) -> Option<PlayerModel> {
    match parsed {
        Some(id) => Some(PlayerModel { username: entry.name, id }),
        None => None,
    }
}

/// The player that a sample entry stands for.
pub open spec fn player_of(entry: EntryModel) -> Option<PlayerModel> {
    player_from(entry, uuid_from_text(entry.id))
}

/// The players of `entries`, in order: the entries whose identifier cannot be
/// read are left out.
pub open spec fn kept_entries(entries: Seq<EntryModel>) -> Seq<PlayerModel> {
    entries.filter_map(|entry: EntryModel| player_of(entry))
}

/// The players of an optional sample; a missing sample has none.
pub open spec fn kept_players(sample: Option<Seq<EntryModel>>) -> Seq<PlayerModel> {
    match sample {
        Some(entries) => kept_entries(entries),
        None => Seq::empty(),
    }
}

/// The status that a response from `address` amounts to.
pub open spec fn status_of(response: ResponseModel, address: Seq<char>) -> StatusModel {
    StatusModel {
        address,
        version_name: response.version_name,
        motd: response.description.motd(),
        max_players: response.players.max,
        players: kept_players(response.players.sample),
    }
}

/// The model of an optional player.
pub open spec fn optional_model(player: Option<PlayerSample>) -> Option<PlayerModel> {
    match player {
        Some(player) => Some(player@),
        None => None,
    }
}

/// An entry behind a sample adds its player behind the sample's players, if
/// its identifier can be read, and nothing otherwise.
pub proof fn lemma_kept_entries_push(entries: Seq<EntryModel>, entry: EntryModel)
    ensures
        kept_entries(entries.push(entry)) == match player_of(entry) {
            Some(player) => kept_entries(entries).push(player),
            None => kept_entries(entries),
        },
{
    assert(entries.push(entry).drop_last() =~= entries);
}

/// No player is made up: each player kept from a sample is the player of one
/// of its entries, whose identifier was read successfully.
pub proof fn lemma_kept_players_come_from_entries(entries: Seq<EntryModel>, player: PlayerModel)
    requires
        kept_entries(entries).contains(player),
    ensures
        exists|entry: EntryModel|
            #[trigger] entries.contains(entry) && entry.name == player.username && uuid_from_text(
                entry.id,
            ) == Some(player.id),
{
    entries.lemma_filter_map_contains(|entry: EntryModel| player_of(entry), player);
    let entry = choose|entry: EntryModel| #[trigger]
        entries.contains(entry) && player_of(entry) == Some(player);
    assert(entries.contains(entry) && entry.name == player.username && uuid_from_text(entry.id)
        == Some(player.id));
}

/// Of a sample of two entries, one with an identifier that can be read and
/// one without, exactly the first is kept, whichever comes first.
pub proof fn lemma_sample_of_valid_and_invalid(valid: EntryModel, invalid: EntryModel)
    requires
        uuid_from_text(valid.id) is Some,
        uuid_from_text(invalid.id) is None,
    ensures
        kept_players(Some(seq![valid, invalid])) == seq![
            PlayerModel { username: valid.name, id: uuid_from_text(valid.id)->0 },
        ],
        kept_players(Some(seq![invalid, valid])) == kept_players(Some(seq![valid, invalid])),
{
    let none = Seq::<EntryModel>::empty();
    assert(kept_entries(none) =~= Seq::<PlayerModel>::empty());
    lemma_kept_entries_push(none, valid);
    lemma_kept_entries_push(none.push(valid), invalid);
    lemma_kept_entries_push(none, invalid);
    lemma_kept_entries_push(none.push(invalid), valid);
    assert(seq![valid, invalid] =~= none.push(valid).push(invalid));
    assert(seq![invalid, valid] =~= none.push(invalid).push(valid));
}

/// The message of the day does not depend on the shape of the description:
/// two responses whose descriptions carry the same text, one plainly and one
/// in an object, give the same message, which is that text.
pub proof fn lemma_motd_ignores_shape(
    plain: ResponseModel,
    object: ResponseModel,
    text: Seq<char>,
    plain_address: Seq<char>,
    object_address: Seq<char>,
)
    requires
        plain.description == DescriptionModel::Plain(text),
        object.description == (DescriptionModel::Object { text }),
    ensures
        status_of(plain, plain_address).motd == status_of(object, object_address).motd,
        status_of(plain, plain_address).motd == text,
{
}

impl PlayerSample {
    /// A player called `username` with the identifier `id`.
    pub fn new(username: String, id: u128) -> (player: PlayerSample)
        ensures
            player.username == username,
            player.id == id,
            player@ == (PlayerModel { username: username@, id }),
    {
        PlayerSample { username, id }
    }

    /// The player of `entry`, given what reading its identifier gave: the
    /// entry's name with the identifier read, or `None` where `parsed` is
    /// `None`.
    pub fn from_parsed(entry: &SampleEntry, parsed: Option<u128>) -> (player: Option<PlayerSample>)
        ensures
            optional_model(player) == player_from(entry@, parsed),
    {
        match parsed {
            Some(id) => Some(PlayerSample::new(entry.name.clone(), id)),
            None => None,
        }
    }

    /// The player of `entry`, or `None` where its identifier is no UUID.
    pub fn from_entry(entry: &SampleEntry) -> (player: Option<PlayerSample>)
        ensures
            optional_model(player) == player_of(entry@),
    {
        let parsed = parse_uuid(entry.id.as_str());
        PlayerSample::from_parsed(entry, parsed)
    }

    /// The players of a response's players block, in the order of its sample.
    /// Entries whose identifier is no UUID are dropped; a missing sample gives
    /// no players.
    pub fn from_server_players(server_players: RawPlayers) -> (players: Vec<PlayerSample>)
        ensures
            player_models(players@) == kept_players(server_players@.sample),
    {
        let mut players: Vec<PlayerSample> = Vec::new();
        if let Some(entries) = server_players.sample {
            let ghost models = entry_models(entries@);
            let mut i: usize = 0;
            assert(models.take(0) =~= Seq::<EntryModel>::empty());
            assert(kept_entries(models.take(0)) =~= Seq::<PlayerModel>::empty());
            while i < entries.len()
                invariant
                    i <= entries@.len(),
                    models == entry_models(entries@),
                    player_models(players@) == kept_entries(models.take(i as int)),
                decreases entries@.len() - i,
            {
                let ghost kept = player_models(players@);
                proof {
                    lemma_kept_entries_push(models.take(i as int), models[i as int]);
                    assert(models.take(i + 1) =~= models.take(i as int).push(models[i as int]));
                }
                if let Some(player) = PlayerSample::from_entry(&entries[i]) {
                    players.push(player);
                    assert(player_models(players@) =~= kept.push(player@));
                }
                i = i + 1;
            }
            assert(models.take(entries@.len() as int) =~= models);
        } else {
            assert(player_models(players@) =~= Seq::<PlayerModel>::empty());
        }
        players
    }
}

impl ServerStatus {
    /// The status that `status`, received from `address`, amounts to: the
    /// version name and the player limit as they came, the description's
    /// text as the message of the day, and the sample's players.
    pub fn from_status(status: RawStatusResponse, address: String) -> (server: ServerStatus)
        ensures
            server@ == status_of(status@, address@),
    {
        let RawStatusResponse { version_name, description, players } = status;
        let max_players = players.max;
        ServerStatus {
            address,
            version_name,
            motd: description.into_motd(),
            max_players,
            players: PlayerSample::from_server_players(players),
        }
    }
}

} // verus!
