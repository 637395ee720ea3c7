//! Download worker planning: where one gist's files go on disk and what is
//! fetched for each.
//!
//! A worker holds one concurrency-gate permit for its whole run, creates the
//! gist's destination directory, then fetches and writes each member file.
//! The fetching and writing are plain I/O and live outside this crate; the
//! plan computed here fixes every path and URL the worker touches, so two
//! runs over the same gist write the same files to the same places, and no
//! two gists' directories collide as long as their ids differ.

use crate::gist::Gist;
use vstd::prelude::*;

verus! {

/// The destination directory for one gist: `output_root/id`.
pub open spec fn dest_dir_spec(output_root: Seq<char>, id: Seq<char>) -> Seq<char> {
    output_root + "/"@ + id
}

/// The destination path for one member file: `dir/filename`.
pub open spec fn file_path_spec(dir: Seq<char>, filename: Seq<char>) -> Seq<char> {
    dir + "/"@ + filename
}

/// Builds the destination directory path for one gist.
pub fn dest_dir(output_root: &str, id: &str) -> (dir: String)
    ensures
        dir@ == dest_dir_spec(output_root@, id@),
{
    let mut dir = String::from_str(output_root);
    dir.append("/");
    dir.append(id);
    proof {
        assert(dir@ =~= dest_dir_spec(output_root@, id@));
    }
    dir
}

/// One fetch a download worker performs: get `url`, write the body to `dest`,
/// overwriting whatever is there.
pub struct FileFetch {
    pub url: String,
    pub dest: String,
}

/// Everything one worker does for one gist: the directory to create, then
/// one fetch per member file, in the order the gist holds them.
pub struct DownloadPlan {
    pub dir: String,
    pub fetches: Vec<FileFetch>,
}

impl DownloadPlan {
    /// The plan `gist` determines under `output_root`: the directory is
    /// `output_root/gist.id`, and fetch `i` takes the raw-content URL of file
    /// `i` to `dir/filename`.
    pub open spec fn matches(self, gist: Gist, output_root: Seq<char>) -> bool {
        &&& self.dir@ == dest_dir_spec(output_root, gist.id@)
        &&& self.fetches@.len() == gist.files@.len()
        &&& forall|i: int|
            0 <= i < gist.files@.len() ==> (#[trigger] self.fetches@[i]).url@
                == gist.files@[i].raw_url@ && self.fetches@[i].dest@ == file_path_spec(
                self.dir@,
                gist.files@[i].filename@,
            )
    }
}

/// Computes the download plan for one gist: the destination directory and,
/// for each member file, its raw-content URL and its path inside that
/// directory. The plan is a function of the gist and the output root alone.
pub fn download_plan(gist: &Gist, output_root: &str) -> (plan: DownloadPlan)
    ensures
        plan.matches(*gist, output_root@),
{
    let dir = dest_dir(output_root, gist.id.as_str());
    let mut fetches: Vec<FileFetch> = Vec::new();
    let mut i: usize = 0;
    while i < gist.files.len()
        invariant
            0 <= i <= gist.files@.len(),
            fetches@.len() == i,
            forall|k: int|
                0 <= k < i ==> (#[trigger] fetches@[k]).url@ == gist.files@[k].raw_url@
                    && fetches@[k].dest@ == file_path_spec(dir@, gist.files@[k].filename@),
        decreases gist.files@.len() - i,
    {
        let mut dest = String::from_str(dir.as_str());
        dest.append("/");
        dest.append(gist.files[i].filename.as_str());
        proof {
            assert(dest@ =~= file_path_spec(dir@, gist.files@[i as int].filename@));
        }
        let url = clone_string(&gist.files[i].raw_url);
        fetches.push(FileFetch { url, dest });
        i = i + 1;
    }
    DownloadPlan { dir, fetches }
}

/// A copy of a string with the same characters.
fn clone_string(s: &String) -> (r: String)
    ensures
        r@ == s@,
{
    String::from_str(s.as_str())
}

/// Within one gist's plan, no two fetches write the same file: the gist's
/// file names are unique, and each destination is the plan's directory
/// followed by one file name, so the destinations are unique too.
pub proof fn lemma_plan_paths_distinct(plan: DownloadPlan, gist: Gist, output_root: Seq<char>)
    requires
        plan.matches(gist, output_root),
        gist.files_wf(),
    ensures
        forall|i: int, j: int|
            0 <= i < j < plan.fetches@.len() ==> (#[trigger] plan.fetches@[i]).dest@ != (
            #[trigger] plan.fetches@[j]).dest@,
{
    assert forall|i: int, j: int|
        0 <= i < j < plan.fetches@.len() implies (#[trigger] plan.fetches@[i]).dest@ != (
    #[trigger] plan.fetches@[j]).dest@ by {
        let di = plan.fetches@[i].dest@;
        let dj = plan.fetches@[j].dest@;
        if di == dj {
            let base = (plan.dir@ + "/"@).len() as int;
            assert(gist.files@[i].filename@ =~= di.subrange(base, di.len() as int));
            assert(gist.files@[j].filename@ =~= dj.subrange(base, dj.len() as int));
        }
    }
}

/// A gist's plan is determined by the gist and the output root alone: any
/// two plans for the same gist under the same root name the same directory
/// and the same fetches. Re-running a download therefore touches exactly the
/// files of the first run, overwriting them in place.
pub proof fn lemma_plan_deterministic(
    first: DownloadPlan,
    second: DownloadPlan,
    gist: Gist,
    output_root: Seq<char>,
)
    requires
        first.matches(gist, output_root),
        second.matches(gist, output_root),
    ensures
        first.dir@ == second.dir@,
        first.fetches@.len() == second.fetches@.len(),
        forall|i: int|
            0 <= i < first.fetches@.len() ==> (#[trigger] first.fetches@[i]).url@
                == second.fetches@[i].url@ && first.fetches@[i].dest@ == second.fetches@[i].dest@,
{
}

/// Distinct gists write under distinct directories: with different ids, the
/// two destination directories differ, so the workers' files never collide.
pub proof fn lemma_dest_dirs_distinct(output_root: Seq<char>, id_a: Seq<char>, id_b: Seq<char>)
    requires
        id_a != id_b,
    ensures
        dest_dir_spec(output_root, id_a) != dest_dir_spec(output_root, id_b),
{
    let da = dest_dir_spec(output_root, id_a);
    let db = dest_dir_spec(output_root, id_b);
    if da == db {
        let base = (output_root + "/"@).len() as int;
        assert(id_a =~= da.subrange(base, da.len() as int));
        assert(id_b =~= db.subrange(base, db.len() as int));
    }
}

} // verus!
