//! Extended attributes: the logic around the native system calls.
//!
//! Every variable-length retrieval (an attribute's value, the list of its
//! names) is a two-phase exchange with the kernel: ask for the size, then
//! fill a buffer of that size. This crate holds the decisions of that
//! exchange, the two encodings in which the kernels return name lists, the
//! check of names and paths before they reach the kernel, and the flag,
//! option and namespace types of each platform family. The system calls
//! themselves are made by the caller, which hands their raw results in.

mod cstr;
mod error;
mod flags;
mod nul_list;
mod prefixed;
mod sizing;

pub use cstr::c_string;
pub use error::{size_result, status_result, Errno, EINVAL};
pub use flags::{AttrNamespace, Flags, Options};
pub use nul_list::{
    encode_nul_list, lemma_nul_list_reencode, lemma_nul_list_round_trip, nul_free,
    nul_list_names, split_at_nuls, split_nul_names,
};
pub use prefixed::{
    encode_entries, entries_are_well_formed, entries_well_formed, entry_names,
    lemma_entries_reencode, lemma_entries_round_trip, names_fit_length_byte, names_of,
    parse_ea_entries,
};
pub use sizing::{
    fill_fits, finish_nul_list, finish_prefixed_list, lemma_unchanged_between_calls, plan_fill,
    take_filled,
};
