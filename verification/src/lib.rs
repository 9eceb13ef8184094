//! An incremental byte-stream parser combinator engine.
//!
//! Small parsing steps return a tri-state [`Parser`] outcome (success with a
//! remainder, terminal failure, or a request for more input) and are composed
//! through the [`Mapper`] algebra and the combinators in [`combinators`].
//! Chunked byte sources implement the producer contract in [`producer`], whose
//! push loop folds unconsumed bytes across chunk boundaries.

pub mod combinators;
pub mod outcome;
pub mod producer;

pub use combinators::begin;
pub use combinators::chain2;
pub use combinators::compose;
pub use combinators::tag;
pub use outcome::ErrorCode;
pub use outcome::Mapper;
pub use outcome::Parser;
pub use producer::MemProducer;
pub use producer::ProducerState;
pub use producer::PushSummary;
pub use producer::carry_keep_len;
