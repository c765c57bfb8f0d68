//! Declarations that let verified code read the structure produced by the
//! `patch` crate's unified-diff tokenizer. All but the file metadata are
//! declared with their public fields, which verified code reads directly.
use vstd::prelude::*;
use patch::File as PatchFile;
use patch::Line as PatchLine;

verus! {

/// Relies on patch::Range: a hunk side's declared start line and line count.
#[verifier::external_type_specification]
pub struct ExRange(patch::Range);

/// Relies on patch::Line: a hunk line tagged added, removed or context,
/// holding its text without the marker.
#[verifier::external_type_specification]
pub struct ExLine<'a>(PatchLine<'a>);

/// Relies on patch::Hunk: the old and new ranges, the text after the header's
/// closing `@@`, and the lines in order.
#[verifier::external_type_specification]
pub struct ExHunk<'a>(patch::Hunk<'a>);

/// Relies on patch::FileMetadata only to carry it; it is never read.
#[verifier::external_type_specification]
#[verifier::external_body]
pub struct ExFileMetadata<'a>(patch::FileMetadata<'a>);

/// Relies on patch::File: the path of one side of a patch.
#[verifier::external_type_specification]
pub struct ExFile<'a>(PatchFile<'a>);

/// Relies on patch::Patch: the old and new files and the hunks in order.
#[verifier::external_type_specification]
pub struct ExPatch<'a>(patch::Patch<'a>);

} // verus!
