//! Package version diffing: the verified core that turns tokenized unified
//! diffs into render-ready file changes, checks downloaded archives against
//! their published digests, and decides the steps of an inspect or compare
//! operation so that its scratch workspace is always released.
pub mod patch_types;
pub mod text;
pub mod digests;
pub mod diff;
pub mod workspace;
pub mod registries;
