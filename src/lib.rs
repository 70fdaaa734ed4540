//! Words to pronunciations: a dictionary from words to IPA transcriptions,
//! and a greedy mapping of IPA symbols to simple English sounds.
use vstd::prelude::*;

pub mod dictionary;
pub mod mapping;
pub mod text;
pub mod transcribe;

verus! {

} // verus!
