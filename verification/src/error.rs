use vstd::prelude::*;

use crate::model::object::ObjectKind;

verus! {

/// Why an operation was refused.
#[derive(Debug)]
pub enum OddError {
    /// A name that no binding in the namespace carries.
    NotRemembered { namespace_id: String, target: String },
    /// A kind name read back from storage that no kind has.
    UnknownKind { name: String },
    /// A stored creation time that is not RFC 3339 text, with the reason
    /// the parser gave.
    BadTimestamp { text: String, reason: String },
    /// The system clock could not be read as a time after 1970.
    ClockUnreadable,
    /// A generated store id that is not a hyphenated UUID.
    BadGeneratedId { id: String },
    /// Neither `ODD_HOME` nor `HOME` is set.
    HomeNotSet,
    /// No store with this id exists.
    StoreNotFound { id: String },
    /// The directory already holds a workspace.
    WorkspaceExists { at: String },
    /// No `.odd` directory in the start directory or any parent of it.
    NotAWorkspace,
    /// An id that a binding or an entry points at has no stored object.
    MissingObject { id: String },
    /// A graft with no `entry=source` pair.
    NoGraftEntries,
    /// A graft argument without `=`.
    MalformedGraftEntry { raw: String },
    /// A graft argument whose entry name (before the `=`) is empty.
    EmptyEntryName { raw: String },
    /// A graft `--into` target that is not a composed object.
    IntoNotComposed { kind: ObjectKind, target: String },
    /// An ungraft target that is not a composed object.
    UngraftNotComposed { kind: ObjectKind, target: String },
    /// An ungraft of an entry the composed object does not have.
    NoSuchEntry { entry: String, composed: String },
    /// A resurrection with no `--dest` and no original path on record.
    NoDestination { target: String },
    /// A file would be overwritten without `--force`.
    DestinationExists { dest: String },
    /// A directory would be materialized over something that is not one.
    DestinationNotDirectory { dest: String },
    /// A directory remembered without asking for recursion.
    NeedsRecursive { path: String },
    /// A path that is neither a regular file nor a directory.
    NotFileOrDirectory { path: String },
}

/// How a kind is named in messages.
pub open spec fn kind_label(kind: ObjectKind) -> Seq<char> {
    match kind {
        ObjectKind::File => "File"@,
        ObjectKind::Directory => "Directory"@,
        ObjectKind::Composed => "Composed"@,
    }
}

/// The message a refusal is reported with.
pub open spec fn error_message(e: OddError) -> Seq<char> {
    match e {
        OddError::NotRemembered { namespace_id, target } => "not remembered in namespace "@
            + namespace_id@ + ": "@ + target@,
        OddError::UnknownKind { name } => "unknown object kind in db: "@ + name@,
        OddError::BadTimestamp { text, reason } => reason@,
        OddError::ClockUnreadable => "system time before Unix epoch"@,
        OddError::BadGeneratedId { id } => "generated store id is not a UUID: "@ + id@,
        OddError::HomeNotSet => "HOME not set"@,
        OddError::StoreNotFound { id } => "store not found: "@ + id@,
        OddError::WorkspaceExists { at } => ".odd already exists at "@ + at@,
        OddError::NotAWorkspace => "not inside an odd workspace (no .odd found)"@,
        OddError::MissingObject { id } => "object referenced but missing: "@ + id@,
        OddError::NoGraftEntries => "graft needs at least one entry=source pair"@,
        OddError::MalformedGraftEntry { raw } => "expected entry=source, got: "@ + raw@,
        OddError::EmptyEntryName { raw } => "empty entry name in: "@ + raw@,
        OddError::IntoNotComposed { kind, target } => "--into target must be a composed object (it's a "@
            + kind_label(kind) + "): "@ + target@,
        OddError::UngraftNotComposed { kind, target } => "ungraft target must be a composed object (it's a "@
            + kind_label(kind) + "): "@ + target@,
        OddError::NoSuchEntry { entry, composed } => "no such entry '"@ + entry@ + "' in "@
            + composed@,
        OddError::NoDestination { target } => "no destination known for "@ + target@
            + "; pass --dest"@,
        OddError::DestinationExists { dest } => "destination exists: "@ + dest@ + " (use --force)"@,
        OddError::DestinationNotDirectory { dest } => "destination exists and is not a directory: "@
            + dest@,
        OddError::NeedsRecursive { path } => path@ + " is a directory; pass -r/--recursive to remember it"@,
        OddError::NotFileOrDirectory { path } => "not a file or directory: "@ + path@,
    }
}

fn kind_label_text(kind: ObjectKind) -> (s: &'static str)
    ensures
        s@ == kind_label(kind),
{
    match kind {
        ObjectKind::File => "File",
        ObjectKind::Directory => "Directory",
        ObjectKind::Composed => "Composed",
    }
}

fn joined(parts: &[&str]) -> (s: String)
    ensures
        s@ == parts@.fold_left(Seq::<char>::empty(), |acc: Seq<char>, p: &str| acc + p@),
{
    let mut s = String::new();
    let n = parts.len();
    let mut i: usize = 0;
    while i < n
        invariant
            n == parts@.len(),
            i <= n,
            s@ == parts@.take(i as int).fold_left(Seq::<char>::empty(), |acc: Seq<char>, p: &str| acc + p@),
        decreases n - i,
    {
        s.append(parts[i]);
        proof {
            let f = |acc: Seq<char>, p: &str| acc + p@;
            assert(parts@.take(i + 1).drop_last() =~= parts@.take(i as int));
            assert(parts@.take(i + 1).last() == parts@[i as int]);
        }
        i = i + 1;
    }
    assert(parts@.take(n as int) =~= parts@);
    s
}

impl OddError {
    /// The message this refusal is reported with.
    pub fn message(&self) -> (m: String)
        ensures
            m@ == error_message(*self),
    {
        let parts: Vec<&str> = match self {
            OddError::NotRemembered { namespace_id, target } => vec![
                "not remembered in namespace ",
                namespace_id.as_str(),
                ": ",
                target.as_str(),
            ],
            OddError::UnknownKind { name } => vec!["unknown object kind in db: ", name.as_str()],
            OddError::BadTimestamp { reason, .. } => vec![reason.as_str()],
            OddError::ClockUnreadable => vec!["system time before Unix epoch"],
            OddError::BadGeneratedId { id } => vec!["generated store id is not a UUID: ", id.as_str()],
            OddError::HomeNotSet => vec!["HOME not set"],
            OddError::StoreNotFound { id } => vec!["store not found: ", id.as_str()],
            OddError::WorkspaceExists { at } => vec![".odd already exists at ", at.as_str()],
            OddError::NotAWorkspace => vec!["not inside an odd workspace (no .odd found)"],
            OddError::MissingObject { id } => vec!["object referenced but missing: ", id.as_str()],
            OddError::NoGraftEntries => vec!["graft needs at least one entry=source pair"],
            OddError::MalformedGraftEntry { raw } => vec!["expected entry=source, got: ", raw.as_str()],
            OddError::EmptyEntryName { raw } => vec!["empty entry name in: ", raw.as_str()],
            OddError::IntoNotComposed { kind, target } => vec![
                "--into target must be a composed object (it's a ",
                kind_label_text(*kind),
                "): ",
                target.as_str(),
            ],
            OddError::UngraftNotComposed { kind, target } => vec![
                "ungraft target must be a composed object (it's a ",
                kind_label_text(*kind),
                "): ",
                target.as_str(),
            ],
            OddError::NoSuchEntry { entry, composed } => vec![
                "no such entry '",
                entry.as_str(),
                "' in ",
                composed.as_str(),
            ],
            OddError::NoDestination { target } => vec![
                "no destination known for ",
                target.as_str(),
                "; pass --dest",
            ],
            OddError::DestinationExists { dest } => vec![
                "destination exists: ",
                dest.as_str(),
                " (use --force)",
            ],
            OddError::DestinationNotDirectory { dest } => vec![
                "destination exists and is not a directory: ",
                dest.as_str(),
            ],
            OddError::NeedsRecursive { path } => vec![
                path.as_str(),
                " is a directory; pass -r/--recursive to remember it",
            ],
            OddError::NotFileOrDirectory { path } => vec!["not a file or directory: ", path.as_str()],
        };
        let m = joined(parts.as_slice());
        proof {
            reveal_with_fuel(Seq::fold_left, 5);
        }
        m
    }
}

} // verus!
