pub mod text;
pub mod transcription;
pub mod mentions;
pub mod store;
pub mod clipboard;
pub mod shell;
pub mod kind_detect;
pub mod drag_drop;
pub mod kokobrain;
pub mod shortcuts;
pub mod tray;
pub mod dock;
pub mod recording;
pub mod events;
pub mod cli;
pub mod timestamp;
pub mod commands;
pub mod wikilink;
pub mod audio;
pub mod dispatch;
pub mod chunker;
pub mod vad;
pub mod mixer;
pub mod pool;
pub mod ids;
