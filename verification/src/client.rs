//! The shape of every exchange with the rclone binary: the argument lists
//! handed to it, and what its output means. Spawning the process and
//! reading its streams happen at the process edge; everything here is the
//! computation on either side of that edge.

use vstd::prelude::*;
use vstd::string::*;

use crate::path_tools::{
    parent_defined, segments, spec_join, spec_parent, split_nonempty, RclonePath,
};
use crate::text::{
    lemma_lex_le_total, lemma_lex_le_trans, lex_le, spec_contains_str, spec_trim,
    str_contains_str, str_lex_le, str_trim_ascii,
};

verus! {

/// One entry of a directory listing, holding what browsing reads: the
/// joined address, display name, byte size (-1 for unknown), MIME type,
/// modification instant in Unix nanoseconds, and the directory flags.
pub struct RcloneFileListing {
    pub path: RclonePath,
    pub name: String,
    pub size: i64,
    pub mime_type: String,
    pub mod_time: i128,
    pub is_dir: bool,
    pub is_bucket: Option<bool>,
}

impl Clone for RcloneFileListing {
    fn clone(&self) -> (r: Self)
        ensures
            r == *self,
    {
        RcloneFileListing {
            path: self.path.clone(),
            name: self.name.clone(),
            size: self.size,
            mime_type: self.mime_type.clone(),
            mod_time: self.mod_time,
            is_dir: self.is_dir,
            is_bucket: self.is_bucket,
        }
    }
}

/// The SI rendering of a byte count, a function of the number alone.
pub uninterp spec fn si_size_of(n: u64) -> Seq<char>;

/// Relies on size_format::SizeFormatterSI, read out through its Display
/// impl with to_string: a decimal size with an SI prefix, computed from
/// the number alone.
#[verifier::external_body]
fn si_format(n: u64) -> (r: String)
    ensures
        r@ == si_size_of(n),
{
    size_format::SizeFormatterSI::new(n).to_string()
}

impl RcloneFileListing {
    /// An entry as imported from `rclone lsjson`: its relative path joined
    /// under the listed parent, the remaining fields kept as given.
    pub fn from_import(
        parent: &RclonePath,
        rel_path: &str,
        name: String,
        size: i64,
        mime_type: String,
        mod_time: i128,
        is_dir: bool,
        is_bucket: Option<bool>,
    ) -> (r: RcloneFileListing)
        ensures
            r.path@ == spec_join(parent@, rel_path@),
            r.name == name,
            r.size == size,
            r.mime_type == mime_type,
            r.mod_time == mod_time,
            r.is_dir == is_dir,
            r.is_bucket == is_bucket,
    {
        RcloneFileListing {
            path: parent.join(rel_path),
            name,
            size,
            mime_type,
            mod_time,
            is_dir,
            is_bucket,
        }
    }

    /// No size text for an unknown (-1) or zero size; otherwise the SI
    /// rendering of the byte count.
    pub fn formatted_size(&self) -> (r: Option<String>)
        requires
            self.size >= -1,
        ensures
            (self.size == -1 || self.size == 0) ==> r is None,
            self.size > 0 ==> (match r {
                Some(t) => t@ == si_size_of(self.size as u64),
                None => false,
            }),
    {
        if self.size == -1 || self.size == 0 {
            None
        } else {
            Some(si_format(self.size as u64))
        }
    }
}

/// The display order of a listing: directories before files, names in
/// lexicographic order within each group.
pub open spec fn listing_le(a: RcloneFileListing, b: RcloneFileListing) -> bool {
    if a.is_dir != b.is_dir {
        a.is_dir
    } else {
        lex_le(a.name@, b.name@)
    }
}

pub open spec fn sorted_listings(s: Seq<RcloneFileListing>) -> bool {
    forall|i: int, j: int| 0 <= i <= j < s.len() ==> listing_le(#[trigger] s[i], #[trigger] s[j])
}

proof fn lemma_listing_le_total(a: RcloneFileListing, b: RcloneFileListing)
    ensures
        listing_le(a, b) || listing_le(b, a),
{
    lemma_lex_le_total(a.name@, b.name@);
}

proof fn lemma_listing_le_trans(a: RcloneFileListing, b: RcloneFileListing, c: RcloneFileListing)
    requires
        listing_le(a, b),
        listing_le(b, c),
    ensures
        listing_le(a, c),
{
    if a.is_dir == b.is_dir && b.is_dir == c.is_dir {
        lemma_lex_le_trans(a.name@, b.name@, c.name@);
    }
}

fn listing_le_exec(a: &RcloneFileListing, b: &RcloneFileListing) -> (r: bool)
    ensures
        r == listing_le(*a, *b),
{
    if a.is_dir != b.is_dir {
        a.is_dir
    } else {
        str_lex_le(a.name.as_str(), b.name.as_str())
    }
}

fn insert_listing_sorted(out: &mut Vec<RcloneFileListing>, item: RcloneFileListing)
    requires
        sorted_listings(old(out)@),
    ensures
        sorted_listings(final(out)@),
        final(out)@.to_multiset() == old(out)@.to_multiset().insert(item),
{
    let mut k: usize = 0;
    loop
        invariant
            k <= out@.len(),
            sorted_listings(out@),
            forall|j: int| 0 <= j < k ==> listing_le(#[trigger] out@[j], item),
        ensures
            k <= out@.len(),
            forall|j: int| 0 <= j < k ==> listing_le(#[trigger] out@[j], item),
            k == out@.len() || !listing_le(out@[k as int], item),
        decreases out@.len() - k,
    {
        if k >= out.len() {
            break;
        }
        if !listing_le_exec(&out[k], &item) {
            break;
        }
        k += 1;
    }
    let ghost before = out@;
    out.insert(k, item);
    proof {
        broadcast use vstd::seq_lib::group_to_multiset_ensures;

        assert(out@ == before.insert(k as int, item));
        assert(sorted_listings(out@)) by {
            let ka = k as int;
            if ka < before.len() {
                lemma_listing_le_total(before[ka], item);
            }
            assert forall|a: int, b: int|
                0 <= a <= b < out@.len() implies listing_le(
                #[trigger] out@[a],
                #[trigger] out@[b],
            ) by {
                if a < ka && b < ka {
                } else if a < ka && b == ka {
                } else if a < ka && b > ka {
                    assert(out@[b] == before[b - 1]);
                } else if a == ka && b == ka {
                    lemma_listing_le_total(item, item);
                } else if a == ka && b > ka {
                    assert(out@[b] == before[b - 1]);
                    assert(listing_le(item, before[ka]));
                    assert(listing_le(before[ka], before[b - 1]));
                    lemma_listing_le_trans(item, before[ka], before[b - 1]);
                } else {
                    assert(out@[a] == before[a - 1]);
                    assert(out@[b] == before[b - 1]);
                }
            }
        }
    }
}

/// The listing rows in display order: directories first, then by name.
pub fn sort_listings(listings: &Vec<RcloneFileListing>) -> (r: Vec<RcloneFileListing>)
    ensures
        r@.to_multiset() == listings@.to_multiset(),
        sorted_listings(r@),
{
    let mut out: Vec<RcloneFileListing> = Vec::new();
    let mut i: usize = 0;
    proof {
        assert(listings@.take(0) =~= out@);
    }
    while i < listings.len()
        invariant
            i <= listings@.len(),
            sorted_listings(out@),
            out@.to_multiset() == listings@.take(i as int).to_multiset(),
        decreases listings@.len() - i,
    {
        insert_listing_sorted(&mut out, listings[i].clone());
        proof {
            broadcast use vstd::seq_lib::group_to_multiset_ensures;

            assert(listings@.take(i + 1) =~= listings@.take(i as int).push(
                listings@[i as int],
            ));
        }
        i += 1;
    }
    proof {
        assert(listings@.take(listings@.len() as int) =~= listings@);
    }
    out
}

/// Creating a directory can fail outright, or hit a backend that cannot
/// represent empty directories.
#[derive(Debug)]
pub enum MkdirError {
    NotAvailableHere,
    Generic(String),
}

/// The failure text for a generic rclone command.
pub open spec fn rclone_failure_text(status: Seq<char>, stderr_text: Seq<char>) -> Seq<char> {
    "Rclone command failed with "@ + status + "\n\n"@ + stderr_text
}

/// The failure text for a copy or move.
pub open spec fn copy_failure_text(status: Seq<char>, stderr_text: Seq<char>) -> Seq<char> {
    "Copy failed with "@ + status + "\n\n"@ + stderr_text
}

pub fn rclone_failure_message(status: &str, stderr_text: &str) -> (r: String)
    ensures
        r@ == rclone_failure_text(status@, stderr_text@),
{
    let mut m = String::from_str("Rclone command failed with ");
    m.append(status);
    m.append("\n\n");
    m.append(stderr_text);
    proof {
        assert(m@ =~= rclone_failure_text(status@, stderr_text@));
    }
    m
}

pub fn copy_failure_message(status: &str, stderr_text: &str) -> (r: String)
    ensures
        r@ == copy_failure_text(status@, stderr_text@),
{
    let mut m = String::from_str("Copy failed with ");
    m.append(status);
    m.append("\n\n");
    m.append(stderr_text);
    proof {
        assert(m@ =~= copy_failure_text(status@, stderr_text@));
    }
    m
}

pub fn list_remotes_failure_message(status: &str) -> (r: String)
    ensures
        r@ == "Rclone command failed - "@ + status@,
{
    let mut m = String::from_str("Rclone command failed - ");
    m.append(status);
    m
}

/// The connection settings for the transfer tool. Probing whether the
/// binary answers happens at the process edge that spawns it.
pub struct RcloneClient {
    pub password: Option<String>,
    pub custom_config_path: Option<String>,
}

impl Clone for RcloneClient {
    fn clone(&self) -> (r: Self)
        ensures
            r == *self,
    {
        RcloneClient {
            password: match &self.password {
                Some(p) => Some(p.clone()),
                None => None,
            },
            custom_config_path: match &self.custom_config_path {
                Some(p) => Some(p.clone()),
                None => None,
            },
        }
    }
}

impl RcloneClient {
    pub fn new(password: Option<String>, custom_config_path: Option<String>) -> (r: Self)
        ensures
            r.password == password,
            r.custom_config_path == custom_config_path,
    {
        RcloneClient { password, custom_config_path }
    }

    /// The value for the RCLONE_PASSWORD_COMMAND environment variable: an
    /// echo of the quoted password, when one is set.
    pub fn password_command(&self) -> (r: Option<String>)
        ensures
            match (&r, &self.password) {
                (Some(c), Some(p)) => c@ == "echo \""@ + p@ + "\""@,
                (None, None) => true,
                _ => false,
            },
    {
        match &self.password {
            Some(p) => {
                let mut c = String::from_str("echo \"");
                c.append(p.as_str());
                c.append("\"");
                proof {
                    assert(c@ =~= "echo \""@ + p@ + "\""@);
                }
                Some(c)
            },
            None => None,
        }
    }

    /// The --config argument, when a custom path is set.
    pub fn config_args(&self) -> (r: Vec<String>)
        ensures
            match &self.custom_config_path {
                Some(p) => r@.len() == 1 && r@[0]@ == "--config="@ + p@,
                None => r@.len() == 0,
            },
    {
        let mut args: Vec<String> = Vec::new();
        match &self.custom_config_path {
            Some(p) => {
                let mut a = String::from_str("--config=");
                a.append(p.as_str());
                args.push(a);
            },
            None => {},
        }
        args
    }

    pub fn list_remotes_args() -> (r: Vec<String>)
        ensures
            r@.len() == 2,
            r@[0]@ == "listremotes"@,
            r@[1]@ == "--use-json-log"@,
    {
        let mut args: Vec<String> = Vec::new();
        args.push(String::from_str("listremotes"));
        args.push(String::from_str("--use-json-log"));
        args
    }

    pub fn ls_args(path: &RclonePath) -> (r: Vec<String>)
        ensures
            r@.len() == 2,
            r@[0]@ == "lsjson"@,
            r@[1]@ == path@,
    {
        let mut args: Vec<String> = Vec::new();
        args.push(String::from_str("lsjson"));
        args.push(path.to_string());
        args
    }

    pub fn copy_args(source_path: &RclonePath, target_path: &RclonePath) -> (r: Vec<String>)
        ensures
            r@.len() == 3,
            r@[0]@ == "copyto"@,
            r@[1]@ == source_path@,
            r@[2]@ == target_path@,
    {
        let mut args: Vec<String> = Vec::new();
        args.push(String::from_str("copyto"));
        args.push(source_path.to_string());
        args.push(target_path.to_string());
        args
    }

    /// A move hands rclone the target's parent directory, not the target
    /// itself.
    pub fn mv_args(source_path: &RclonePath, target_path: &RclonePath) -> (r: Vec<String>)
        requires
            parent_defined(target_path@),
        ensures
            r@.len() == 3,
            r@[0]@ == "move"@,
            r@[1]@ == source_path@,
            r@[2]@ == spec_parent(target_path@),
    {
        let target_directory = target_path.resolve_to_parent();
        let mut args: Vec<String> = Vec::new();
        args.push(String::from_str("move"));
        args.push(source_path.to_string());
        args.push(target_directory.to_string());
        args
    }

    pub fn rm_args(path: &RclonePath) -> (r: Vec<String>)
        ensures
            r@.len() == 2,
            r@[0]@ == "delete"@,
            r@[1]@ == path@,
    {
        let mut args: Vec<String> = Vec::new();
        args.push(String::from_str("delete"));
        args.push(path.to_string());
        args
    }

    pub fn mkdir_args(path: &RclonePath) -> (r: Vec<String>)
        ensures
            r@.len() == 2,
            r@[0]@ == "mkdir"@,
            r@[1]@ == path@,
    {
        let mut args: Vec<String> = Vec::new();
        args.push(String::from_str("mkdir"));
        args.push(path.to_string());
        args
    }

    /// One remote name per line of `rclone listremotes` output: the text
    /// trimmed, split at newlines, empty lines dropped.
    pub fn parse_remotes_output(raw: &str) -> (r: Vec<String>)
        ensures
            r.deep_view() == segments(spec_trim(raw@), '\n', '\n'),
    {
        let trimmed = str_trim_ascii(raw);
        split_nonempty(trimmed, '\n', '\n')
    }

    /// What one finished `rclone mkdir` run means: the failure text when
    /// the command failed; the capability error when rclone warns that
    /// this backend cannot hold empty directories; success otherwise.
    pub fn classify_mkdir_output(success: bool, status: &str, stderr_text: &str) -> (r: Result<
        (),
        MkdirError,
    >)
        ensures
            !success ==> (match r {
                Err(MkdirError::Generic(m)) => m@ == rclone_failure_text(status@, stderr_text@),
                _ => false,
            }),
            success ==> (if spec_contains_str(
                stderr_text@,
                "Warning: running mkdir on a remote which can't have empty directories does nothing"@,
            ) {
                r == Err::<(), MkdirError>(MkdirError::NotAvailableHere)
            } else {
                r is Ok
            }),
    {
        if !success {
            return Err(MkdirError::Generic(rclone_failure_message(status, stderr_text)));
        }
        if str_contains_str(
            stderr_text,
            "Warning: running mkdir on a remote which can't have empty directories does nothing",
        ) {
            Err(MkdirError::NotAvailableHere)
        } else {
            Ok(())
        }
    }
}

} // verus!
