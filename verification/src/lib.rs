pub mod bits;
pub mod jis;
pub mod opna;
pub mod player;
pub mod pmd;
pub mod visual;

pub use player::{Error, FileProvider, Metadata, Player, TickStatus};
pub use visual::{ChannelSnapshot, PlaybackStatus, VisualChannelKind, CHANNEL_COUNT, NO_NOTE};
pub mod font;
