//! What the operations are for, said of their inputs and results.
pub mod answering;
pub mod browsing;
pub mod copying;
pub mod counting;
pub mod drawing;
pub mod indexing;
pub mod listing;
pub mod picking;
pub mod playing;
pub mod queueing;
pub mod retagging;
pub mod ripping;
pub mod stems;
pub mod tagging;
pub mod texts;
