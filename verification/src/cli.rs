use vstd::prelude::*;
use crate::player::Verb;

verus! {

/// The parsed command line: one command per invocation.
pub struct Cli {
    pub command: Commands,
}

/// Every command the tool accepts. The playback verbs carry no arguments;
/// the management commands carry their targets.
pub enum Commands {
    Play,
    Pause,
    Resume,
    Skip,
    Stop,
    Status,
    Songs { action: Option<SongAction> },
    Playlists { action: Option<PlaylistAction> },
    Queue { action: Option<QueueAction> },
    Scan { directory: String },
}

pub enum SongAction {
    Add { path: String },
    View { name: String },
    Remove { name: String },
    Edit { name: String, field: EditSong, value: String },
    List,
}

/// Which field of a song an edit command changes.
#[derive(Clone, Copy, PartialEq, Eq, Debug, Structural)]
pub enum EditSong {
    Name,
    Artist,
    Album,
    Path,
}

pub enum PlaylistAction {
    Create { playlist_name: String },
    View { playlist_name: String },
    Add { playlist_name: String, song: String },
    Remove { playlist_name: String, song: String },
    Delete { playlist_name: String },
    Edit { playlist_name: String, field: EditPlaylist, value: String },
    List,
}

/// Which field of a playlist an edit command changes.
#[derive(Clone, Copy, PartialEq, Eq, Debug, Structural)]
pub enum EditPlaylist {
    Name,
}

pub enum QueueAction {
    AddSong { song_name: String },
    AddPlaylist { playlist_name: String },
    Remove { index: usize },
    List,
    Clear,
}

/// The playback verb a command stands for, if it is a playback command at
/// all; the management commands carry none.
pub fn playback_verb(command: &Commands) -> (r: Option<Verb>)
    ensures
        r == spec_playback_verb(*command),
{
    match command {
        Commands::Play => Some(Verb::Play),
        Commands::Pause => Some(Verb::Pause),
        Commands::Resume => Some(Verb::Resume),
        Commands::Skip => Some(Verb::Skip),
        Commands::Stop => Some(Verb::Stop),
        Commands::Status => Some(Verb::Status),
        _ => None,
    }
}

pub open spec fn spec_playback_verb(command: Commands) -> Option<Verb> {
    match command {
        Commands::Play => Some(Verb::Play),
        Commands::Pause => Some(Verb::Pause),
        Commands::Resume => Some(Verb::Resume),
        Commands::Skip => Some(Verb::Skip),
        Commands::Stop => Some(Verb::Stop),
        Commands::Status => Some(Verb::Status),
        _ => None,
    }
}

} // verus!
