//! Deciding what to do with one archive entry.
//!
//! The decision depends only on the entry's names: the raw stored name as
//! recorded in the archive and the decoded, usable form of it, when the
//! decoder could produce one. An entry without a usable decoded name, or
//! with an empty one, is skipped outright: it contributes nothing and is no
//! error. A decoded name carrying a parent-directory segment is rejected, so
//! that no destination can escape the root. A raw name ending in the
//! separator marks a directory to create; anything else is a file to write,
//! together with the parent directory that must exist first.

use crate::paths::dir_marker;
use crate::paths::drop_last_segment;
use crate::paths::has_dotdot;
use crate::paths::is_dir_marker;
use crate::paths::name_has_traversal;
use crate::paths::parent_cut;
use crate::paths::path_join;
use crate::paths::resolve;
use vstd::prelude::*;

verus! {

/// The action one entry calls for. `Reject` carries the offending decoded
/// name; `MakeDir` and `WriteFile` carry resolved destinations, and
/// `WriteFile` also the parent directory to create when absent.
#[derive(Debug)]
pub enum EntryPlan {
    Skip,
    Reject { name: String },
    MakeDir { dest: String },
    WriteFile { dest: String, parent: String },
}

/// Plans the entry whose raw stored name is `raw_name` and whose decoded
/// name, if the decoder produced one, is `enclosed`, for extraction under
/// `root`.
pub fn plan_entry(root: &str, raw_name: &str, enclosed: Option<&str>) -> (p: EntryPlan)
    ensures
        match enclosed {
            Option::None => p is Skip,
            Option::Some(name) => {
                if name@.len() == 0 {
                    p is Skip
                } else if has_dotdot(name@) {
                    p matches EntryPlan::Reject { name: rejected } && rejected@ == name@
                } else if dir_marker(raw_name@) {
                    p matches EntryPlan::MakeDir { dest } && dest@ == path_join(root@, name@)
                } else {
                    p matches EntryPlan::WriteFile { dest, parent } && dest@ == path_join(
                        root@,
                        name@,
                    ) && parent@ == path_join(root@, drop_last_segment(name@))
                }
            },
        },
{
    match enclosed {
        Option::None => EntryPlan::Skip,
        Option::Some(name) => {
            if name.unicode_len() == 0 {
                EntryPlan::Skip
            } else if name_has_traversal(name) {
                EntryPlan::Reject { name: String::from_str(name) }
            } else if is_dir_marker(raw_name) {
                EntryPlan::MakeDir { dest: resolve(root, name) }
            } else {
                let cut = parent_cut(name);
                let parent_part = name.substring_char(0, cut);
                proof {
                    assert(parent_part@ == drop_last_segment(name@));
                }
                EntryPlan::WriteFile {
                    dest: resolve(root, name),
                    parent: resolve(root, parent_part),
                }
            }
        },
    }
}

} // verus!
