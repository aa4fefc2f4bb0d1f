//! Pasted images that are staged as files: their names, the private directory
//! that holds them, and when they are swept.

use vstd::prelude::*;

use crate::text;

verus! {

/// How long a staged image is kept, in nanoseconds: a day.
pub const STAGED_CLIPBOARD_IMAGE_MAX_AGE_NANOS: u128 = 86_400_000_000_000;

/// How many names are tried for one image.
pub const MAX_STAGE_ATTEMPTS: u32 = 100;

/// The extension that an image is staged under: one of a few known ones, and
/// that of a plain image for anything else.
pub open spec fn extension_view(extension: Seq<char>) -> Seq<char> {
    if text::same_but_for_case(extension, "png"@) {
        "png"@
    } else if text::same_but_for_case(extension, "jpg"@) || text::same_but_for_case(
        extension,
        "jpeg"@,
    ) {
        "jpg"@
    } else if text::same_but_for_case(extension, "gif"@) {
        "gif"@
    } else if text::same_but_for_case(extension, "webp"@) {
        "webp"@
    } else if text::same_but_for_case(extension, "bmp"@) {
        "bmp"@
    } else {
        "png"@
    }
}

/// The extension that an image is staged under.
pub fn sanitize_extension(extension: &str) -> (known: &'static str)
    ensures
        known@ == extension_view(extension@),
{
    if text::eq_ignore_ascii_case(extension, "png") {
        "png"
    } else if text::eq_ignore_ascii_case(extension, "jpg") || text::eq_ignore_ascii_case(
        extension,
        "jpeg",
    ) {
        "jpg"
    } else if text::eq_ignore_ascii_case(extension, "gif") {
        "gif"
    } else if text::eq_ignore_ascii_case(extension, "webp") {
        "webp"
    } else if text::eq_ignore_ascii_case(extension, "bmp") {
        "bmp"
    } else {
        "png"
    }
}

/// Whatever a client claims, an image is staged under one of five extensions.
pub proof fn law_staged_extensions_are_known(extension: Seq<char>)
    ensures
        extension_view(extension) == "png"@ || extension_view(extension) == "jpg"@
            || extension_view(extension) == "gif"@ || extension_view(extension) == "webp"@
            || extension_view(extension) == "bmp"@,
{
}

/// The file name of a staged image.
pub open spec fn staged_name_view(
    client_id: nat,
    unique: nat,
    attempt: nat,
    extension: Seq<char>,
) -> Seq<char> {
    "client-"@ + text::decimal(client_id) + "-clipboard-"@ + text::decimal(unique) + "-"@
        + text::decimal(attempt) + "."@ + extension_view(extension)
}

/// The file name to stage an image under: `unique` tells apart images of one
/// client, `attempt` names that are taken.
pub fn staged_file_name(client_id: u64, unique: u128, attempt: u32, extension: &str) -> (name:
    String)
    ensures
        name@ == staged_name_view(
            client_id as nat,
            unique as nat,
            attempt as nat,
            extension@,
        ),
{
    let mut name = "client-".to_owned();
    name.append(text::decimal_text(client_id).as_str());
    name.append("-clipboard-");
    name.append(text::wide_decimal_text(unique).as_str());
    name.append("-");
    name.append(text::decimal_text(attempt as u64).as_str());
    name.append(".");
    name.append(sanitize_extension(extension));
    name
}

/// How creating a staged file went.
#[derive(Debug)]
pub enum CreateOutcome {
    Created,
    /// The name is taken.
    AlreadyExists,
    Failed(String),
}

/// What staging an image does next.
#[derive(Debug)]
pub enum StageStep {
    /// Write the image to the file that was created.
    Write,
    /// Try the next name.
    Retry(u32),
    /// Give up, with this complaint.
    GiveUp(String),
}

/// Decide how to go on after an attempt to create the file. A taken name leads
/// to the next one, for a while; anything else ends the staging.
pub fn stage(attempt: u32, outcome: CreateOutcome) -> (step: StageStep)
    requires
        attempt < MAX_STAGE_ATTEMPTS,
    ensures
        match outcome {
            CreateOutcome::Created => step == StageStep::Write,
            CreateOutcome::Failed(reason) => step == StageStep::GiveUp(reason),
            CreateOutcome::AlreadyExists => if attempt + 1 < MAX_STAGE_ATTEMPTS {
                step == StageStep::Retry((attempt + 1) as u32)
            } else {
                step matches StageStep::GiveUp(complaint) && complaint@
                    == "failed to allocate unique clipboard image staging path"@
            },
        },
{
    match outcome {
        CreateOutcome::Created => StageStep::Write,
        CreateOutcome::Failed(reason) => StageStep::GiveUp(reason),
        CreateOutcome::AlreadyExists => {
            if attempt + 1 < MAX_STAGE_ATTEMPTS {
                StageStep::Retry(attempt + 1)
            } else {
                StageStep::GiveUp(
                    "failed to allocate unique clipboard image staging path".to_owned(),
                )
            }
        },
    }
}

/// The name of a user's staging directory.
pub fn staging_dir_name(user_id: u32) -> (name: String)
    ensures
        name@ == "herdr-clipboard-images-"@ + text::decimal(user_id as nat),
{
    let mut name = "herdr-clipboard-images-".to_owned();
    name.append(text::decimal_text(user_id as u64).as_str());
    name
}

/// What stands at the place of the staging directory, links not followed.
#[derive(Debug, Clone, Copy, PartialEq, Eq, Structural)]
pub struct StagingRoot {
    pub is_symlink: bool,
    pub is_dir: bool,
    pub uid: u32,
    pub mode: u32,
}

/// What is wrong with a staging directory, if anything is: it is a directory
/// that the user owns and that nobody else can reach, or it is refused.
pub open spec fn defect_view(root: StagingRoot, euid: u32) -> Option<Seq<char>> {
    if root.is_symlink || !root.is_dir {
        Some("path is not a directory"@)
    } else if root.uid != euid {
        Some("directory is owned by another user"@)
    } else if root.mode & 0o077 != 0 {
        Some("directory is accessible to other users"@)
    } else {
        None
    }
}

/// What is wrong with a staging directory, if anything is.
pub fn staging_root_defect(
    is_symlink: bool,
    is_dir: bool,
    uid: u32,
    mode: u32,
    euid: u32,
) -> (defect: Option<&'static str>)
    ensures
        (match defect {
            Some(defect) => Some(defect@),
            None => None,
        }) == defect_view(StagingRoot { is_symlink, is_dir, uid, mode }, euid),
{
    if is_symlink || !is_dir {
        return Some("path is not a directory");
    }
    if uid != euid {
        return Some("directory is owned by another user");
    }
    if mode & 0o077 != 0 {
        return Some("directory is accessible to other users");
    }
    None
}

/// What was found at the place of the staging directory.
#[derive(Debug)]
pub enum StatOutcome {
    Found(StagingRoot),
    /// Nothing, which is told in these words.
    Missing(String),
    Failed(String),
}

/// What preparing the staging directory does next.
#[derive(Debug)]
pub enum EnsureStep {
    /// Create the directory for the owner alone, then look again.
    Create,
    /// Restrict the directory to the owner; it is ready.
    Restrict,
    /// Refuse, with this complaint.
    Refuse(String),
}

/// Decide how to go on preparing the staging directory. What is found there is
/// never repaired: a directory that is not private is refused, also where it
/// appeared while it was created.
pub fn ensure_staging_dir_at(
    dir: &str,
    euid: u32,
    stat: StatOutcome,
    created: bool,
) -> (step: EnsureStep)
    ensures
        match stat {
            StatOutcome::Found(root) => match defect_view(root, euid) {
                None => step == EnsureStep::Restrict,
                Some(defect) => step matches EnsureStep::Refuse(complaint) && complaint@
                    == "clipboard image staging "@ + defect + ": "@ + dir@,
            },
            StatOutcome::Missing(reason) => if created {
                step == EnsureStep::Refuse(reason)
            } else {
                step == EnsureStep::Create
            },
            StatOutcome::Failed(reason) => step == EnsureStep::Refuse(reason),
        },
{
    match stat {
        StatOutcome::Found(root) => {
            match staging_root_defect(root.is_symlink, root.is_dir, root.uid, root.mode, euid) {
                None => EnsureStep::Restrict,
                Some(defect) => {
                    let mut complaint = "clipboard image staging ".to_owned();
                    complaint.append(defect);
                    complaint.append(": ");
                    complaint.append(dir);
                    EnsureStep::Refuse(complaint)
                },
            }
        },
        StatOutcome::Missing(reason) => {
            if created {
                EnsureStep::Refuse(reason)
            } else {
                EnsureStep::Create
            }
        },
        StatOutcome::Failed(reason) => EnsureStep::Refuse(reason),
    }
}

/// A staging directory is used only where it is the user's own and private.
pub proof fn law_only_private_directories_are_used(root: StagingRoot, euid: u32)
    requires
        defect_view(root, euid) is None,
    ensures
        root.is_dir,
        !root.is_symlink,
        root.uid == euid,
        root.mode & 0o077 == 0,
{
}

/// Whether a staged image has outlived its day. An age that cannot be told
/// counts as none.
pub fn is_stale(age_nanos: Option<u128>) -> (stale: bool)
    ensures
        stale == (age_nanos matches Some(age) && age > STAGED_CLIPBOARD_IMAGE_MAX_AGE_NANOS),
{
    match age_nanos {
        Some(age) => age > STAGED_CLIPBOARD_IMAGE_MAX_AGE_NANOS,
        None => false,
    }
}

/// A known extension is kept, in small letters; the two ways to write that of a
/// photograph are one.
pub proof fn law_known_extensions_are_kept(extension: Seq<char>)
    ensures
        text::same_but_for_case(extension, "png"@) ==> extension_view(extension) == "png"@,
        text::same_but_for_case(extension, "jpg"@) ==> extension_view(extension) == "jpg"@,
        text::same_but_for_case(extension, "jpeg"@) ==> extension_view(extension) == "jpg"@,
        text::same_but_for_case(extension, "gif"@) ==> extension_view(extension) == "gif"@,
        text::same_but_for_case(extension, "webp"@) ==> extension_view(extension) == "webp"@,
        text::same_but_for_case(extension, "bmp"@) ==> extension_view(extension) == "bmp"@,
{
    reveal_strlit("png");
    reveal_strlit("jpg");
    reveal_strlit("jpeg");
    reveal_strlit("gif");
    reveal_strlit("webp");
    reveal_strlit("bmp");
    if text::same_but_for_case(extension, "jpg"@) {
        assert(text::folded(extension[0]) == text::folded('j'));
    }
    if text::same_but_for_case(extension, "jpeg"@) {
        assert(text::folded(extension[0]) == text::folded('j'));
    }
    if text::same_but_for_case(extension, "gif"@) {
        assert(text::folded(extension[0]) == text::folded('g'));
    }
    if text::same_but_for_case(extension, "webp"@) {
        assert(text::folded(extension[0]) == text::folded('w'));
        assert(extension.len() == 4);
    }
    if text::same_but_for_case(extension, "bmp"@) {
        assert(text::folded(extension[0]) == text::folded('b'));
    }
    if text::same_but_for_case(extension, "png"@) {
        assert(text::folded(extension[0]) == text::folded('p'));
    }
}

/// A directory that is the user's own and private is used, whatever else its
/// mode says; any other is refused for what is wrong with it.
pub proof fn law_private_directories_are_taken(root: StagingRoot, euid: u32)
    ensures
        root.is_dir && !root.is_symlink && root.uid == euid && root.mode & 0o077 == 0
            ==> defect_view(root, euid) is None,
        root.is_symlink || !root.is_dir ==> defect_view(root, euid) == Some(
            "path is not a directory"@,
        ),
        root.is_dir && !root.is_symlink && root.uid != euid ==> defect_view(root, euid) == Some(
            "directory is owned by another user"@,
        ),
        root.is_dir && !root.is_symlink && root.uid == euid && root.mode & 0o077 != 0
            ==> defect_view(root, euid) == Some("directory is accessible to other users"@),
{
}

/// A name that is taken is tried again under the next number, up to a hundred
/// times; a file that was created is written, and any other failure is told.
pub proof fn law_taken_names_are_passed_over(attempt: u32, outcome: CreateOutcome, step: StageStep)
    requires
        attempt < 100,
        call_ensures(stage, (attempt, outcome), step),
    ensures
        outcome is Created ==> step is Write,
        outcome is Failed ==> step == StageStep::GiveUp(outcome->Failed_0),
        outcome is AlreadyExists && attempt < 99 ==> step == StageStep::Retry((attempt + 1) as u32),
        outcome is AlreadyExists && attempt == 99 ==> step is GiveUp,
{
}

/// A staged image is stale after a day; one whose age is not known is not.
pub proof fn law_images_are_kept_for_a_day(age_nanos: Option<u128>, stale: bool)
    requires
        call_ensures(is_stale, (age_nanos,), stale),
    ensures
        age_nanos is None ==> !stale,
        age_nanos is Some ==> (stale <==> age_nanos->0 > 24 * 60 * 60 * 1_000_000_000),
{
}

/// The name of a staged image tells its client, what is unique to it and the
/// attempt, and ends in its extension.
pub proof fn law_staged_names_tell_images_apart(
    client_id: u64,
    unique: u128,
    attempt: u32,
    extension: &str,
    name: String,
)
    requires
        call_ensures(staged_file_name, (client_id, unique, attempt, extension), name),
    ensures
        name@ == "client-"@ + text::decimal(client_id as nat) + "-clipboard-"@ + text::decimal(
            unique as nat,
        ) + "-"@ + text::decimal(attempt as nat) + "."@ + extension_view(extension@),
{
}

} // verus!
