//! Build errors of the loading phase. A failure to read metadata, a file,
//! a directory, or a directory entry aborts the whole build; the message
//! always names the offending entry so the failure can be traced.

use vstd::prelude::*;

verus! {

broadcast use vstd::seq::group_seq_axioms;

/// What went wrong while loading the source tree.
pub enum LoadErrorKind {
    /// An entry's metadata could not be read.
    Metadata,
    /// A directory could not be enumerated.
    DirectoryRead,
    /// A file's bytes could not be read or decoded as text.
    FileRead,
    /// A directory entry could not be obtained during enumeration.
    Child,
}

/// The words that open a load error message of the given kind.
pub open spec fn kind_prefix(kind: LoadErrorKind) -> Seq<char> {
    match kind {
        LoadErrorKind::Metadata => "unable to read metadata for '"@,
        LoadErrorKind::DirectoryRead => "unable to read directory '"@,
        LoadErrorKind::FileRead => "unable to read file '"@,
        LoadErrorKind::Child => "unable to get child in directory '"@,
    }
}

/// The full text of a load error: kind, offending entry, underlying cause.
pub open spec fn load_error_spec(
    kind: LoadErrorKind,
    name: Seq<char>,
    cause: Seq<char>,
) -> Seq<char> {
    kind_prefix(kind) + name + "': "@ + cause
}

/// Formats the message reported when loading fails at one entry.
pub fn load_error_message(kind: LoadErrorKind, name: &str, cause: &str) -> (r: String)
    ensures
        r@ == load_error_spec(kind, name@, cause@),
{
    let mut out = match kind {
        LoadErrorKind::Metadata => String::from_str("unable to read metadata for '"),
        LoadErrorKind::DirectoryRead => String::from_str("unable to read directory '"),
        LoadErrorKind::FileRead => String::from_str("unable to read file '"),
        LoadErrorKind::Child => String::from_str("unable to get child in directory '"),
    };
    out.append(name);
    out.append("': ");
    out.append(cause);
    out
}

/// A load error message names the entry it failed on: the entry's name
/// stands in the message, directly after the kind's opening words.
pub proof fn lemma_error_names_entry(kind: LoadErrorKind, name: Seq<char>, cause: Seq<char>)
    ensures
        exists|i: int|
            0 <= i && i + name.len() <= load_error_spec(kind, name, cause).len()
                && #[trigger] load_error_spec(kind, name, cause).subrange(i, i + name.len())
                == name,
{
    let msg = load_error_spec(kind, name, cause);
    let i: int = kind_prefix(kind).len() as int;
    assert(msg.subrange(i, i + name.len()) =~= name);
}

} // verus!
